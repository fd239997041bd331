//! The subscription table: for each known topic, its subscribers.

use crate::user_qos::{
    copy_user_qos_list, first_user_index, has_user, qos_views, upserted, user_position, user_removed,
    users_unique, UserQos, UserQosView,
};
use crate::text::copy_string;
use vstd::prelude::*;

verus! {

/// One topic and its subscribers.
pub struct SubscriptionView {
    pub topic: Seq<char>,
    pub subscribers: Seq<UserQosView>,
}

/// No topic appears twice.
pub open spec fn topics_unique(v: Seq<SubscriptionView>) -> bool {
    forall|i: int, j: int| 0 <= i < j < v.len() ==> #[trigger] v[i].topic != #[trigger] v[j].topic
}

/// Whether `topic` is known.
pub open spec fn has_topic(v: Seq<SubscriptionView>, topic: Seq<char>) -> bool {
    exists|i: int| 0 <= i < v.len() && #[trigger] v[i].topic == topic
}

/// A well-formed table: topics unique, and no client twice under a topic.
pub open spec fn table_wf(v: Seq<SubscriptionView>) -> bool {
    &&& topics_unique(v)
    &&& forall|k: int| 0 <= k < v.len() ==> users_unique(#[trigger] v[k].subscribers)
}

/// The known topics, in order.
pub open spec fn table_topics(v: Seq<SubscriptionView>) -> Seq<Seq<char>> {
    v.map_values(|e: SubscriptionView| e.topic)
}

/// Setting a QoS keeps the clients of a list unique.
pub proof fn lemma_upsert_unique(old: Seq<UserQosView>, new: Seq<UserQosView>, user: Seq<char>, qos: u8)
    requires
        users_unique(old),
        upserted(old, new, user, qos),
    ensures
        users_unique(new),
        has_user(new, user),
{
    if has_user(old, user) {
        let j = choose|j: int| first_user_index(old, user, j) && new == old.update(j, UserQosView { user, qos });
        assert(new[j].user == user);
        assert forall|a: int, b: int| 0 <= a < b < new.len() implies #[trigger] new[a].user != #[trigger] new[b].user by {
            assert(new[a].user == old[a].user);
            assert(new[b].user == old[b].user);
        }
    } else {
        assert(new[old.len() as int].user == user);
        assert forall|a: int, b: int| 0 <= a < b < new.len() implies #[trigger] new[a].user != #[trigger] new[b].user by {
            if b == old.len() {
                assert(new[a] == old[a]);
                if old[a].user == user {
                    assert(has_user(old, user));
                }
            } else {
                assert(new[a] == old[a]);
                assert(new[b] == old[b]);
            }
        }
    }
}

/// Removing a client keeps the clients of a list unique, and leaves none
/// for that client.
pub proof fn lemma_remove_unique(old: Seq<UserQosView>, new: Seq<UserQosView>, user: Seq<char>)
    requires
        users_unique(old),
        user_removed(old, new, user),
    ensures
        users_unique(new),
        !has_user(new, user),
{
    if has_user(old, user) {
        let j = choose|j: int| first_user_index(old, user, j) && new == old.remove(j);
        assert forall|a: int, b: int| 0 <= a < b < new.len() implies #[trigger] new[a].user != #[trigger] new[b].user by {
            let a2 = if a < j { a } else { a + 1 };
            let b2 = if b < j { b } else { b + 1 };
            assert(new[a] == old[a2]);
            assert(new[b] == old[b2]);
        }
        if has_user(new, user) {
            let m = choose|m: int| 0 <= m < new.len() && #[trigger] new[m].user == user;
            let m2 = if m < j { m } else { m + 1 };
            assert(new[m] == old[m2]);
            assert(old[j].user == user);
        }
    }
}

/// A topic and its subscribers.
struct TopicEntry {
    topic: String,
    subscribers: Vec<UserQos>,
}

impl TopicEntry {
    spec fn view(&self) -> SubscriptionView {
        SubscriptionView { topic: self.topic@, subscribers: qos_views(self.subscribers@) }
    }
}

/// The views of the entries.
spec fn entry_views(es: Seq<TopicEntry>) -> Seq<SubscriptionView> {
    es.map_values(|e: TopicEntry| e.view())
}

/// The subscription table.
pub struct SubscriptionTable {
    entries: Vec<TopicEntry>,
}

impl View for SubscriptionTable {
    type V = Seq<SubscriptionView>;

    closed spec fn view(&self) -> Seq<SubscriptionView> {
        entry_views(self.entries@)
    }
}

impl SubscriptionTable {
    /// The table is well formed.
    pub open spec fn wf(&self) -> bool {
        table_wf(self@)
    }

    /// An empty table.
    pub fn new() -> (r: Self)
        ensures
            r@ == Seq::<SubscriptionView>::empty(),
            r.wf(),
    {
        let r = SubscriptionTable { entries: Vec::new() };
        assert(r@ =~= Seq::<SubscriptionView>::empty());
        r
    }

    /// The position of `topic`, if it is known.
    pub fn position(&self, topic: &String) -> (r: Option<usize>)
        ensures
            match r {
                Some(i) => i < self@.len() && self@[i as int].topic == topic@,
                None => !has_topic(self@, topic@),
            },
    {
        let mut i: usize = 0;
        while i < self.entries.len()
            invariant
                i <= self@.len(),
                self@ == entry_views(self.entries@),
                forall|k: int| 0 <= k < i ==> #[trigger] self@[k].topic != topic@,
            decreases self.entries.len() - i,
        {
            if crate::text::same_string(&self.entries[i].topic, topic) {
                return Some(i);
            }
            i = i + 1;
        }
        None
    }

    /// Whether `topic` is known.
    pub fn contains_topic(&self, topic: &String) -> (r: bool)
        ensures
            r == has_topic(self@, topic@),
    {
        self.position(topic).is_some()
    }

    /// Makes `topic` known, with no subscribers, unless it already is.
    pub fn ensure_topic(&mut self, topic: &String)
        requires
            old(self).wf(),
        ensures
            final(self).wf(),
            has_topic(old(self)@, topic@) ==> final(self)@ == old(self)@,
            !has_topic(old(self)@, topic@) ==> final(self)@ == old(self)@.push(
                SubscriptionView { topic: topic@, subscribers: Seq::empty() },
            ),
    {
        if self.position(topic).is_none() {
            let ghost old_v = self@;
            let e = TopicEntry { topic: copy_string(topic), subscribers: Vec::new() };
            assert(e.view().subscribers =~= Seq::<UserQosView>::empty());
            let ghost new_v = old_v.push(e.view());
            proof {
                assert forall|a: int, b: int| 0 <= a < b < new_v.len() implies #[trigger] new_v[a].topic != #[trigger] new_v[b].topic by {
                    assert(new_v[a] == old_v[a]);
                    if b < old_v.len() {
                        assert(new_v[b] == old_v[b]);
                    }
                }
                assert forall|k: int| 0 <= k < new_v.len() implies users_unique(#[trigger] new_v[k].subscribers) by {
                    if k < old_v.len() {
                        assert(new_v[k] == old_v[k]);
                    }
                }
            }
            self.entries.push(e);
            assert(self@ =~= new_v);
        }
    }

    /// The subscribers of `topic`; none when it is not known.
    pub fn subscribers_of(&self, topic: &String) -> (r: Vec<UserQos>)
        requires
            self.wf(),
        ensures
            match self.position_spec(topic@) {
                Some(i) => qos_views(r@) == self@[i].subscribers,
                None => r@.len() == 0,
            },
    {
        match self.position(topic) {
            Some(i) => {
                proof {
                    self.lemma_position(topic@, i as int);
                }
                copy_user_qos_list(&self.entries[i].subscribers)
            },
            None => Vec::new(),
        }
    }

    /// The position of a topic in a well-formed table, if it is known.
    pub open spec fn position_spec(&self, topic: Seq<char>) -> Option<int> {
        if has_topic(self@, topic) {
            Some(choose|i: int| 0 <= i < self@.len() && #[trigger] self@[i].topic == topic)
        } else {
            None
        }
    }

    /// In a well-formed table, a topic sits at one position only.
    pub proof fn lemma_position(&self, topic: Seq<char>, i: int)
        requires
            topics_unique(self@),
            0 <= i < self@.len(),
            self@[i].topic == topic,
        ensures
            self.position_spec(topic) == Some(i),
    {
        let j = choose|j: int| 0 <= j < self@.len() && #[trigger] self@[j].topic == topic;
        if j != i {
            if j < i {
                assert(self@[j].topic != self@[i].topic);
            } else {
                assert(self@[i].topic != self@[j].topic);
            }
        }
    }

    /// The known topics, in order.
    pub fn topics(&self) -> (r: Vec<String>)
        ensures
            r@.map_values(|t: String| t@) == table_topics(self@),
    {
        let mut r: Vec<String> = Vec::new();
        let mut i: usize = 0;
        while i < self.entries.len()
            invariant
                i <= self@.len(),
                self@ == entry_views(self.entries@),
                r@.map_values(|t: String| t@) == table_topics(self@).take(i as int),
            decreases self.entries.len() - i,
        {
            let ghost before = r@.map_values(|t: String| t@);
            let t = copy_string(&self.entries[i].topic);
            assert(self@[i as int].topic == t@);
            r.push(t);
            assert(r@.map_values(|t: String| t@) =~= before.push(t@));
            i = i + 1;
            assert(r@.map_values(|t: String| t@) =~= table_topics(self@).take(i as int));
        }
        assert(table_topics(self@).take(i as int) =~= table_topics(self@));
        r
    }

    /// Replaces the subscribers at position `i`.
    fn set_subscribers(&mut self, i: usize, subscribers: Vec<UserQos>)
        requires
            old(self).wf(),
            i < old(self)@.len(),
            users_unique(qos_views(subscribers@)),
        ensures
            final(self).wf(),
            final(self)@ == old(self)@.update(
                i as int,
                SubscriptionView { topic: old(self)@[i as int].topic, subscribers: qos_views(subscribers@) },
            ),
    {
        let ghost old_v = self@;
        let topic = copy_string(&self.entries[i].topic);
        let e = TopicEntry { topic, subscribers };
        self.entries.set(i, e);
        let ghost new_v = self@;
        assert(new_v =~= old_v.update(i as int, e.view()));
        assert forall|a: int, b: int| 0 <= a < b < new_v.len() implies #[trigger] new_v[a].topic != #[trigger] new_v[b].topic by {
            assert(new_v[a].topic == old_v[a].topic);
            assert(new_v[b].topic == old_v[b].topic);
        }
        assert forall|k: int| 0 <= k < new_v.len() implies users_unique(#[trigger] new_v[k].subscribers) by {
            if k != i {
                assert(new_v[k] == old_v[k]);
            }
        }
    }

    /// Subscribes `client` to a known `topic` with `qos`, or updates its QoS
    /// there. An unknown topic is left alone (`None`); otherwise the result
    /// says whether the subscription is new.
    pub fn subscribe_one(&mut self, client: &String, topic: &String, qos: u8) -> (r: Option<bool>)
        requires
            old(self).wf(),
        ensures
            final(self).wf(),
            match old(self).position_spec(topic@) {
                None => r is None && final(self)@ == old(self)@,
                Some(i) => {
                    &&& r == Some(!has_user(old(self)@[i].subscribers, client@))
                    &&& final(self)@.len() == old(self)@.len()
                    &&& final(self)@[i].topic == topic@
                    &&& upserted(old(self)@[i].subscribers, final(self)@[i].subscribers, client@, qos)
                    &&& forall|k: int| 0 <= k < old(self)@.len() && k != i ==> #[trigger] final(self)@[k] == old(self)@[k]
                },
            },
    {
        let i = match self.position(topic) {
            Some(i) => i,
            None => {
                return None;
            },
        };
        proof {
            self.lemma_position(topic@, i as int);
        }
        let mut list = copy_user_qos_list(&self.entries[i].subscribers);
        let ghost old_list = qos_views(list@);
        assert(old_list == self@[i as int].subscribers);
        assert(users_unique(old_list));
        let is_new = match user_position(&list, client) {
            Some(j) => {
                list.set(j, UserQos::new(copy_string(client), qos));
                assert(qos_views(list@) =~= old_list.update(j as int, UserQosView { user: client@, qos }));
                false
            },
            None => {
                list.push(UserQos::new(copy_string(client), qos));
                assert(qos_views(list@) =~= old_list.push(UserQosView { user: client@, qos }));
                true
            },
        };
        proof {
            lemma_upsert_unique(old_list, qos_views(list@), client@, qos);
        }
        self.set_subscribers(i, list);
        Some(is_new)
    }

    /// Removes `client` from `topic`; returns whether it was subscribed.
    pub fn unsubscribe_one(&mut self, client: &String, topic: &String) -> (r: bool)
        requires
            old(self).wf(),
        ensures
            final(self).wf(),
            match old(self).position_spec(topic@) {
                None => !r && final(self)@ == old(self)@,
                Some(i) => {
                    &&& r == has_user(old(self)@[i].subscribers, client@)
                    &&& final(self)@.len() == old(self)@.len()
                    &&& final(self)@[i].topic == topic@
                    &&& user_removed(old(self)@[i].subscribers, final(self)@[i].subscribers, client@)
                    &&& forall|k: int| 0 <= k < old(self)@.len() && k != i ==> #[trigger] final(self)@[k] == old(self)@[k]
                },
            },
    {
        let i = match self.position(topic) {
            Some(i) => i,
            None => {
                return false;
            },
        };
        proof {
            self.lemma_position(topic@, i as int);
        }
        self.remove_at(i, client)
    }

    /// Removes `client` from the subscribers at position `i`.
    fn remove_at(&mut self, i: usize, client: &String) -> (r: bool)
        requires
            old(self).wf(),
            i < old(self)@.len(),
        ensures
            final(self).wf(),
            r == has_user(old(self)@[i as int].subscribers, client@),
            final(self)@.len() == old(self)@.len(),
            final(self)@[i as int].topic == old(self)@[i as int].topic,
            user_removed(old(self)@[i as int].subscribers, final(self)@[i as int].subscribers, client@),
            forall|k: int| 0 <= k < old(self)@.len() && k != i ==> #[trigger] final(self)@[k] == old(self)@[k],
    {
        let mut list = copy_user_qos_list(&self.entries[i].subscribers);
        let ghost old_list = qos_views(list@);
        assert(old_list == self@[i as int].subscribers);
        assert(users_unique(old_list));
        match user_position(&list, client) {
            Some(j) => {
                list.remove(j);
                assert(qos_views(list@) =~= old_list.remove(j as int));
                proof {
                    lemma_remove_unique(old_list, qos_views(list@), client@);
                }
                self.set_subscribers(i, list);
                true
            },
            None => false,
        }
    }

    /// Removes `client` from every topic; returns the topics it left, in
    /// order.
    pub fn remove_client(&mut self, client: &String) -> (r: Vec<String>)
        requires
            old(self).wf(),
        ensures
            final(self).wf(),
            final(self)@.len() == old(self)@.len(),
            forall|k: int| 0 <= k < old(self)@.len() ==> #[trigger] final(self)@[k].topic == old(self)@[k].topic,
            forall|k: int| 0 <= k < old(self)@.len() ==> user_removed(
                #[trigger] old(self)@[k].subscribers,
                final(self)@[k].subscribers,
                client@,
            ),
            forall|k: int| 0 <= k < old(self)@.len() ==> !has_user(#[trigger] final(self)@[k].subscribers, client@),
            r@.map_values(|t: String| t@) == topics_with_user(old(self)@, client@),
    {
        let ghost old_v = self@;
        let n = self.entries.len();
        let mut left: Vec<String> = Vec::new();
        let mut i: usize = 0;
        while i < n
            invariant
                self.wf(),
                n == old_v.len(),
                self@.len() == n,
                i <= n,
                forall|k: int| 0 <= k < n ==> #[trigger] self@[k].topic == old_v[k].topic,
                forall|k: int| 0 <= k < i ==> user_removed(#[trigger] old_v[k].subscribers, self@[k].subscribers, client@),
                forall|k: int| i <= k < n ==> #[trigger] self@[k] == old_v[k],
                left@.map_values(|t: String| t@) == topics_with_user(old_v.take(i as int), client@),
            decreases n - i,
        {
            let ghost before = self@;
            let removed = self.remove_at(i, client);
            proof {
                assert(old_v.take(i as int + 1).drop_last() =~= old_v.take(i as int));
                assert(old_v.take(i as int + 1).last() == old_v[i as int]);
            }
            if removed {
                left.push(copy_string(&self.entries[i].topic));
            }
            i = i + 1;
            assert(left@.map_values(|t: String| t@) =~= topics_with_user(old_v.take(i as int), client@));
        }
        proof {
            assert(old_v.take(n as int) =~= old_v);
            assert forall|k: int| 0 <= k < n implies !has_user(#[trigger] self@[k].subscribers, client@) by {
                lemma_remove_unique(old_v[k].subscribers, self@[k].subscribers, client@);
            }
        }
        left
    }
}

/// The topics under which `user` is subscribed, in order.
pub open spec fn topics_with_user(v: Seq<SubscriptionView>, user: Seq<char>) -> Seq<Seq<char>>
    decreases v.len(),
{
    if v.len() == 0 {
        Seq::empty()
    } else if has_user(v.last().subscribers, user) {
        topics_with_user(v.drop_last(), user).push(v.last().topic)
    } else {
        topics_with_user(v.drop_last(), user)
    }
}

} // verus!
