//! Resolving SUBSCRIBE and UNSUBSCRIBE requests against the table:
//! wildcard expansion, de-duplication, and the updates themselves.

use crate::constants::SubackReturnCode;
use crate::registry::{has_topic, table_topics, SubscriptionTable, SubscriptionView};
use crate::subscribe::{filter_views, Subscribe, Unsubscribe};
use crate::text::copy_string;
use crate::topic_filter::{TopicFilter, TopicFilterView, NO_QOS};
use crate::user_qos::{has_user, suback_code_for, suback_ret_code, upserted, user_removed};
use crate::wildcard::{chars_of, compile, state_match, WildCard};
use vstd::prelude::*;
use vstd::utf8::encode_utf8;

verus! {

/// Whether a topic holds a `*`.
pub open spec fn has_star(s: Seq<char>) -> bool {
    exists|i: int| 0 <= i < s.len() && s[i] == '*'
}

/// The known topics that a pattern matches (and that fit a length prefix),
/// in table order.
pub open spec fn expansion(keys: Seq<Seq<char>>, pattern: Seq<char>) -> Seq<Seq<char>>
    decreases keys.len(),
{
    if keys.len() == 0 {
        Seq::empty()
    } else if state_match(compile(pattern), keys.last()) && encode_utf8(keys.last()).len() < 65536 {
        expansion(keys.drop_last(), pattern).push(keys.last())
    } else {
        expansion(keys.drop_last(), pattern)
    }
}

/// The (topic, QoS) pairs of a list of filters.
pub open spec fn filter_pairs(ts: Seq<TopicFilterView>) -> Seq<(Seq<char>, u8)> {
    ts.map_values(|t: TopicFilterView| (t.topic, t.qos))
}

/// The QoS stored for an optional requested QoS.
pub open spec fn qos_or_none(qos: Option<u8>) -> u8 {
    match qos {
        Some(q) => q,
        None => NO_QOS,
    }
}

/// The expansion of a pattern, each topic with the pattern's QoS (or none);
/// nothing for a QoS above 2.
pub open spec fn expansion_pairs(keys: Seq<Seq<char>>, pattern: Seq<char>, qos: Option<u8>) -> Seq<
    (Seq<char>, u8),
> {
    if qos is Some && qos->Some_0 > 2 {
        Seq::empty()
    } else {
        expansion(keys, pattern).map_values(|k: Seq<char>| (k, qos_or_none(qos)))
    }
}

/// The expansions of every pattern of a request, in order; with the
/// pattern's QoS for a SUBSCRIBE (`with_qos`), without one otherwise.
pub open spec fn expand_all(ps: Seq<(Seq<char>, u8)>, keys: Seq<Seq<char>>, with_qos: bool) -> Seq<
    (Seq<char>, u8),
>
    decreases ps.len(),
{
    if ps.len() == 0 {
        Seq::empty()
    } else if has_star(ps.last().0) {
        expand_all(ps.drop_last(), keys, with_qos) + expansion_pairs(
            keys,
            ps.last().0,
            if with_qos {
                Some(ps.last().1)
            } else {
                None
            },
        )
    } else {
        expand_all(ps.drop_last(), keys, with_qos)
    }
}

/// A request without its patterns and without repeated topics; the first
/// occurrence of a topic is kept.
pub open spec fn dedup(ps: Seq<(Seq<char>, u8)>) -> Seq<(Seq<char>, u8)>
    decreases ps.len(),
{
    if ps.len() == 0 {
        Seq::empty()
    } else {
        let d = dedup(ps.drop_last());
        if has_star(ps.last().0) || exists|i: int| 0 <= i < d.len() && #[trigger] d[i].0 == ps.last().0 {
            d
        } else {
            d.push(ps.last())
        }
    }
}

/// The topics that a request resolves to, against the known topics.
pub open spec fn resolve(fs: Seq<TopicFilterView>, keys: Seq<Seq<char>>, with_qos: bool) -> Seq<
    (Seq<char>, u8),
> {
    dedup(filter_pairs(fs) + expand_all(filter_pairs(fs), keys, with_qos))
}

/// No topic twice, and no pattern.
pub open spec fn pairs_unique(d: Seq<(Seq<char>, u8)>) -> bool {
    &&& forall|a: int, b: int| 0 <= a < b < d.len() ==> #[trigger] d[a].0 != #[trigger] d[b].0
    &&& forall|a: int| 0 <= a < d.len() ==> !has_star(#[trigger] d[a].0)
}

/// The result of `dedup` has no topic twice and no pattern.
pub proof fn lemma_dedup_unique(ps: Seq<(Seq<char>, u8)>)
    ensures
        pairs_unique(dedup(ps)),
    decreases ps.len(),
{
    if ps.len() > 0 {
        lemma_dedup_unique(ps.drop_last());
        let d = dedup(ps.drop_last());
        let r = dedup(ps);
        if !(has_star(ps.last().0) || exists|i: int| 0 <= i < d.len() && #[trigger] d[i].0 == ps.last().0) {
            assert forall|a: int, b: int| 0 <= a < b < r.len() implies #[trigger] r[a].0 != #[trigger] r[b].0 by {
                assert(r[a] == d[a]);
                if b < d.len() {
                    assert(r[b] == d[b]);
                }
            }
            assert forall|a: int| 0 <= a < r.len() implies !has_star(#[trigger] r[a].0) by {
                if a < d.len() {
                    assert(r[a] == d[a]);
                }
            }
        }
    }
}

/// Whether a string holds a `*`.
fn topic_has_star(s: &String) -> (r: bool)
    ensures
        r == has_star(s@),
{
    let cs = chars_of(s.as_str());
    let mut i: usize = 0;
    while i < cs.len()
        invariant
            cs@ == s@,
            i <= cs@.len(),
            forall|k: int| 0 <= k < i ==> cs@[k] != '*',
        decreases cs.len() - i,
    {
        if cs[i] == '*' {
            return true;
        }
        i = i + 1;
    }
    false
}

/// Filters for the known topics that `topic` matches as a pattern, each
/// with `qos`, in table order.
fn expand_pattern(topic: &String, topic_subs: &SubscriptionTable, qos: Option<u8>) -> (r: Vec<TopicFilter>)
    ensures
        filter_pairs(filter_views(r@)) == expansion_pairs(table_topics(topic_subs@), topic@, qos),
{
    let ghost q = qos_or_none(qos);
    let keys = topic_subs.topics();
    let ghost kv = keys@.map_values(|t: String| t@);
    let mut out: Vec<TopicFilter> = Vec::new();
    match qos {
        Some(q) => {
            if q > 2 {
                assert(filter_pairs(filter_views(out@)) =~= expansion_pairs(kv, topic@, qos));
                return out;
            }
        },
        None => {},
    }
    let wild_card = WildCard::new(topic.as_str());
    let mut i: usize = 0;
    while i < keys.len()
        invariant
            kv == keys@.map_values(|t: String| t@),
            kv == table_topics(topic_subs@),
            wild_card@ == compile(topic@),
            !(qos is Some && qos->Some_0 > 2),
            q == qos_or_none(qos),
            i <= keys@.len(),
            filter_pairs(filter_views(out@)) == expansion(kv.take(i as int), topic@).map_values(
                |k: Seq<char>| (k, q),
            ),
        decreases keys.len() - i,
    {
        let key = &keys[i];
        proof {
            assert(kv.take(i as int + 1).drop_last() =~= kv.take(i as int));
            assert(kv.take(i as int + 1).last() == key@);
        }
        let ghost prev = expansion(kv.take(i as int), topic@);
        if wild_card.matches(key.as_str()) {
            match TopicFilter::from_topic(copy_string(key), qos) {
                Ok(t) => {
                    let ghost before = filter_pairs(filter_views(out@));
                    out.push(t);
                    assert(filter_pairs(filter_views(out@)) =~= before.push((key@, q)));
                    assert(expansion(kv.take(i as int + 1), topic@) == prev.push(key@));
                    assert(prev.push(key@).map_values(|k: Seq<char>| (k, q)) =~= prev.map_values(
                        |k: Seq<char>| (k, q),
                    ).push((key@, q)));
                },
                Err(_) => {
                    assert(expansion(kv.take(i as int + 1), topic@) == prev);
                },
            }
        } else {
            assert(expansion(kv.take(i as int + 1), topic@) == prev);
        }
        i = i + 1;
    }
    assert(kv.take(keys@.len() as int) =~= kv);
    out
}

/// Filters for the known topics that `topic` matches, each with `qos`.
pub fn wild_card_topics(topic: String, topic_subs: &SubscriptionTable, qos: u8) -> (r: Vec<TopicFilter>)
    ensures
        filter_pairs(filter_views(r@)) == expansion_pairs(table_topics(topic_subs@), topic@, Some(qos)),
{
    expand_pattern(&topic, topic_subs, Some(qos))
}

/// Filters, without a requested QoS, for the known topics that `topic`
/// matches.
pub fn wild_card_topics_unsub(topic: String, topic_subs: &SubscriptionTable) -> (r: Vec<TopicFilter>)
    ensures
        filter_pairs(filter_views(r@)) == expansion_pairs(table_topics(topic_subs@), topic@, None),
{
    expand_pattern(&topic, topic_subs, None)
}

/// Drops the patterns and the repeated topics of a request, keeping the
/// first occurrence of each topic.
pub fn remove_duplicates_and_wild_cards(topics: Vec<TopicFilter>) -> (r: Vec<TopicFilter>)
    ensures
        filter_pairs(filter_views(r@)) == dedup(filter_pairs(filter_views(topics@))),
{
    let ghost ps = filter_pairs(filter_views(topics@));
    let mut out: Vec<TopicFilter> = Vec::new();
    let mut i: usize = 0;
    while i < topics.len()
        invariant
            ps == filter_pairs(filter_views(topics@)),
            i <= topics@.len(),
            filter_pairs(filter_views(out@)) == dedup(ps.take(i as int)),
        decreases topics.len() - i,
    {
        let t = &topics[i];
        let topic = t.get_topic();
        proof {
            assert(ps.take(i as int + 1).drop_last() =~= ps.take(i as int));
            assert(ps.take(i as int + 1).last() == (topic@, t@.qos));
        }
        let ghost d = dedup(ps.take(i as int));
        let mut seen = false;
        let mut j: usize = 0;
        while j < out.len()
            invariant
                d == filter_pairs(filter_views(out@)),
                j <= out@.len(),
                seen == exists|k: int| 0 <= k < j && #[trigger] d[k].0 == topic@,
            decreases out.len() - j,
        {
            let other = out[j].get_topic();
            if crate::text::same_string(&other, &topic) {
                seen = true;
            }
            assert(d[j as int].0 == other@);
            j = j + 1;
        }
        if !topic_has_star(&topic) && !seen {
            let ghost before = filter_pairs(filter_views(out@));
            out.push(t.clone());
            assert(filter_pairs(filter_views(out@)) =~= before.push((topic@, t@.qos)));
        }
        i = i + 1;
    }
    assert(ps.take(topics@.len() as int) =~= ps);
    out
}

/// Whether `user` is subscribed to `topic` in the table.
pub open spec fn subscribed(v: Seq<SubscriptionView>, topic: Seq<char>, user: Seq<char>) -> bool {
    exists|k: int| 0 <= k < v.len() && #[trigger] v[k].topic == topic && has_user(v[k].subscribers, user)
}

/// The resolved topics that are known and to which `user` was not yet
/// subscribed, in order.
pub open spec fn newly_subscribed(rs: Seq<(Seq<char>, u8)>, v: Seq<SubscriptionView>, user: Seq<char>) -> Seq<
    Seq<char>,
>
    decreases rs.len(),
{
    if rs.len() == 0 {
        Seq::empty()
    } else if has_topic(v, rs.last().0) && !subscribed(v, rs.last().0, user) {
        newly_subscribed(rs.drop_last(), v, user).push(rs.last().0)
    } else {
        newly_subscribed(rs.drop_last(), v, user)
    }
}

/// The resolved topics to which `user` was subscribed, in order.
pub open spec fn previously_subscribed(rs: Seq<(Seq<char>, u8)>, v: Seq<SubscriptionView>, user: Seq<char>) -> Seq<
    Seq<char>,
>
    decreases rs.len(),
{
    if rs.len() == 0 {
        Seq::empty()
    } else if subscribed(v, rs.last().0, user) {
        previously_subscribed(rs.drop_last(), v, user).push(rs.last().0)
    } else {
        previously_subscribed(rs.drop_last(), v, user)
    }
}

/// The SUBACK code for a resolved topic: failure for an unknown topic.
pub open spec fn resolved_code(v: Seq<SubscriptionView>, p: (Seq<char>, u8)) -> SubackReturnCode {
    if has_topic(v, p.0) {
        suback_code_for(p.1)
    } else {
        SubackReturnCode::Failure
    }
}

/// What a SUBSCRIBE did: one SUBACK code per resolved topic, and the topics
/// that gained the client.
pub struct SubscribeOutcome {
    pub return_codes: Vec<SubackReturnCode>,
    pub new_topics: Vec<String>,
}

/// A request's filters with each pattern expanded against the table.
fn expand_request(filters: Vec<TopicFilter>, topic_subs: &SubscriptionTable, with_qos: bool) -> (r: Vec<TopicFilter>)
    ensures
        filter_pairs(filter_views(r@)) == filter_pairs(filter_views(filters@)) + expand_all(
            filter_pairs(filter_views(filters@)),
            table_topics(topic_subs@),
            with_qos,
        ),
{
    let ghost ps = filter_pairs(filter_views(filters@));
    let ghost keys = table_topics(topic_subs@);
    let n = filters.len();
    let mut topics = filters;
    let mut i: usize = 0;
    proof {
        assert(ps.take(0) =~= Seq::<(Seq<char>, u8)>::empty());
        assert(ps + Seq::<(Seq<char>, u8)>::empty() =~= ps);
    }
    while i < n
        invariant
            n == ps.len(),
            i <= n,
            keys == table_topics(topic_subs@),
            filter_pairs(filter_views(topics@)) == ps + expand_all(ps.take(i as int), keys, with_qos),
            topics@.len() == filter_pairs(filter_views(topics@)).len(),
        decreases n - i,
    {
        proof {
            assert(filter_pairs(filter_views(topics@))[i as int] == ps[i as int]);
            assert(ps.take(i as int + 1).drop_last() =~= ps.take(i as int));
            assert(ps.take(i as int + 1).last() == ps[i as int]);
        }
        let topic = topics[i].get_topic();
        let qos = topics[i].get_qos();
        if topic_has_star(&topic) {
            let mut extra = if with_qos {
                wild_card_topics(topic, topic_subs, qos)
            } else {
                wild_card_topics_unsub(topic, topic_subs)
            };
            let ghost before = filter_pairs(filter_views(topics@));
            let ghost add = filter_pairs(filter_views(extra@));
            topics.append(&mut extra);
            assert(filter_pairs(filter_views(topics@)) =~= before + add);
            assert(ps + expand_all(ps.take(i as int), keys, with_qos) + add =~= ps + (expand_all(
                ps.take(i as int),
                keys,
                with_qos,
            ) + add));
        }
        i = i + 1;
    }
    assert(ps.take(n as int) =~= ps);
    topics
}

/// In a well-formed table, a known topic is at exactly one position.
proof fn lemma_topic_at(v: Seq<SubscriptionView>, topic: Seq<char>, k: int)
    requires
        crate::registry::table_wf(v),
        0 <= k < v.len(),
        v[k].topic == topic,
    ensures
        forall|m: int| 0 <= m < v.len() && #[trigger] v[m].topic == topic ==> m == k,
{
    assert forall|m: int| 0 <= m < v.len() && #[trigger] v[m].topic == topic implies m == k by {
        if m < k {
            assert(v[m].topic != v[k].topic);
        } else if m > k {
            assert(v[k].topic != v[m].topic);
        }
    }
}

/// Applies a SUBSCRIBE for `user`: patterns are expanded against the known
/// topics, repeats are dropped, and each known topic gains the client with
/// its QoS (or has its QoS updated). Unknown topics get a failure code.
pub fn resolve_subscribe(topic_subs: &mut SubscriptionTable, subscribe: &Subscribe, user: &String) -> (r:
    SubscribeOutcome)
    requires
        old(topic_subs).wf(),
    ensures
        ({
            let old_v = old(topic_subs)@;
            let new_v = final(topic_subs)@;
            let rs = resolve(subscribe@.topics, table_topics(old_v), true);
            &&& final(topic_subs).wf()
            &&& new_v.len() == old_v.len()
            &&& forall|k: int| 0 <= k < old_v.len() ==> #[trigger] new_v[k].topic == old_v[k].topic
            &&& forall|k: int, i: int|
                0 <= k < old_v.len() && 0 <= i < rs.len() && #[trigger] rs[i].0 == #[trigger] old_v[k].topic
                    ==> upserted(old_v[k].subscribers, new_v[k].subscribers, user@, rs[i].1)
            &&& forall|k: int|
                0 <= k < old_v.len() && (forall|i: int| 0 <= i < rs.len() ==> #[trigger] rs[i].0 != old_v[k].topic)
                    ==> #[trigger] new_v[k] == old_v[k]
            &&& r.return_codes@ == rs.map_values(|p: (Seq<char>, u8)| resolved_code(old_v, p))
            &&& r.new_topics@.map_values(|t: String| t@) == newly_subscribed(rs, old_v, user@)
        }),
{
    let ghost old_v = topic_subs@;
    let expanded = expand_request(subscribe.get_topics(), topic_subs, true);
    let ghost ex = filter_pairs(filter_views(expanded@));
    let resolved = remove_duplicates_and_wild_cards(expanded);
    let ghost rs = filter_pairs(filter_views(resolved@));
    proof {
        lemma_dedup_unique(ex);
        assert(rs == resolve(subscribe@.topics, table_topics(old_v), true));
    }
    let mut codes: Vec<SubackReturnCode> = Vec::new();
    let mut new_topics: Vec<String> = Vec::new();
    let mut j: usize = 0;
    while j < resolved.len()
        invariant
            rs == filter_pairs(filter_views(resolved@)),
            j <= rs.len(),
            topic_subs.wf(),
            crate::registry::table_wf(old_v),
            topic_subs@.len() == old_v.len(),
            forall|k: int| 0 <= k < old_v.len() ==> #[trigger] topic_subs@[k].topic == old_v[k].topic,
            forall|k: int, i: int|
                0 <= k < old_v.len() && 0 <= i < j && #[trigger] rs[i].0 == #[trigger] old_v[k].topic
                    ==> upserted(old_v[k].subscribers, topic_subs@[k].subscribers, user@, rs[i].1),
            forall|k: int|
                0 <= k < old_v.len() && (forall|i: int| 0 <= i < j ==> #[trigger] rs[i].0 != old_v[k].topic)
                    ==> #[trigger] topic_subs@[k] == old_v[k],
            pairs_unique(rs),
            codes@ == rs.take(j as int).map_values(|p: (Seq<char>, u8)| resolved_code(old_v, p)),
            new_topics@.map_values(|t: String| t@) == newly_subscribed(rs.take(j as int), old_v, user@),
        decreases resolved.len() - j,
    {
        let topic = resolved[j].get_topic();
        let qos = resolved[j].get_qos();
        let ghost pos = topic_subs.position_spec(topic@);
        let ghost cur = topic_subs@;
        proof {
            assert(rs[j as int] == (topic@, qos));
            assert(rs.take(j as int + 1).drop_last() =~= rs.take(j as int));
            assert(rs.take(j as int + 1).last() == rs[j as int]);
        }
        let outcome = topic_subs.subscribe_one(user, &topic, qos);
        match outcome {
            None => {
                codes.push(SubackReturnCode::Failure);
                proof {
                    if has_topic(old_v, topic@) {
                        let k = choose|k: int| 0 <= k < old_v.len() && #[trigger] old_v[k].topic == topic@;
                        assert(cur[k].topic == topic@);
                    }
                    assert(rs.take(j as int + 1).map_values(|p: (Seq<char>, u8)| resolved_code(old_v, p))
                        =~= rs.take(j as int).map_values(|p: (Seq<char>, u8)| resolved_code(old_v, p)).push(
                        resolved_code(old_v, rs[j as int]),
                    ));
                }
            },
            Some(is_new) => {
                codes.push(suback_ret_code(qos));
                proof {
                    let k = pos->Some_0;
                    assert(cur[k].topic == topic@);
                    assert(old_v[k].topic == topic@);
                    assert(has_topic(old_v, topic@));
                    assert forall|i: int| 0 <= i < j implies rs[i].0 != old_v[k].topic by {
                        assert(rs[i].0 != rs[j as int].0);
                    }
                    assert(cur[k] == old_v[k]);
                    lemma_topic_at(old_v, topic@, k);
                    assert(rs.take(j as int + 1).map_values(|p: (Seq<char>, u8)| resolved_code(old_v, p))
                        =~= rs.take(j as int).map_values(|p: (Seq<char>, u8)| resolved_code(old_v, p)).push(
                        resolved_code(old_v, rs[j as int]),
                    ));
                }
                if is_new {
                    new_topics.push(copy_string(&topic));
                }
            },
        }
        j = j + 1;
    }
    proof {
        assert(rs.take(rs.len() as int) =~= rs);
    }
    SubscribeOutcome { return_codes: codes, new_topics }
}

/// Applies an UNSUBSCRIBE for `user`: patterns are expanded against the
/// known topics, repeats are dropped, and the client leaves each resolved
/// topic. Returns the topics it left, in order.
pub fn resolve_unsubscribe(topic_subs: &mut SubscriptionTable, unsubscribe: &Unsubscribe, user: &String) -> (r:
    Vec<String>)
    requires
        old(topic_subs).wf(),
    ensures
        ({
            let old_v = old(topic_subs)@;
            let new_v = final(topic_subs)@;
            let rs = resolve(unsubscribe@.topics, table_topics(old_v), false);
            &&& final(topic_subs).wf()
            &&& new_v.len() == old_v.len()
            &&& forall|k: int| 0 <= k < old_v.len() ==> #[trigger] new_v[k].topic == old_v[k].topic
            &&& forall|k: int, i: int|
                0 <= k < old_v.len() && 0 <= i < rs.len() && #[trigger] rs[i].0 == #[trigger] old_v[k].topic
                    ==> user_removed(old_v[k].subscribers, new_v[k].subscribers, user@)
            &&& forall|k: int|
                0 <= k < old_v.len() && (forall|i: int| 0 <= i < rs.len() ==> #[trigger] rs[i].0 != old_v[k].topic)
                    ==> #[trigger] new_v[k] == old_v[k]
            &&& r@.map_values(|t: String| t@) == previously_subscribed(rs, old_v, user@)
        }),
{
    let ghost old_v = topic_subs@;
    let expanded = expand_request(unsubscribe.get_topic_filters(), topic_subs, false);
    let ghost ex = filter_pairs(filter_views(expanded@));
    let resolved = remove_duplicates_and_wild_cards(expanded);
    let ghost rs = filter_pairs(filter_views(resolved@));
    proof {
        lemma_dedup_unique(ex);
        assert(rs == resolve(unsubscribe@.topics, table_topics(old_v), false));
    }
    let mut left: Vec<String> = Vec::new();
    let mut j: usize = 0;
    while j < resolved.len()
        invariant
            rs == filter_pairs(filter_views(resolved@)),
            j <= rs.len(),
            topic_subs.wf(),
            crate::registry::table_wf(old_v),
            topic_subs@.len() == old_v.len(),
            forall|k: int| 0 <= k < old_v.len() ==> #[trigger] topic_subs@[k].topic == old_v[k].topic,
            forall|k: int, i: int|
                0 <= k < old_v.len() && 0 <= i < j && #[trigger] rs[i].0 == #[trigger] old_v[k].topic
                    ==> user_removed(old_v[k].subscribers, topic_subs@[k].subscribers, user@),
            forall|k: int|
                0 <= k < old_v.len() && (forall|i: int| 0 <= i < j ==> #[trigger] rs[i].0 != old_v[k].topic)
                    ==> #[trigger] topic_subs@[k] == old_v[k],
            pairs_unique(rs),
            left@.map_values(|t: String| t@) == previously_subscribed(rs.take(j as int), old_v, user@),
        decreases resolved.len() - j,
    {
        let topic = resolved[j].get_topic();
        let ghost pos = topic_subs.position_spec(topic@);
        let ghost cur = topic_subs@;
        proof {
            assert(rs[j as int].0 == topic@);
            assert(rs.take(j as int + 1).drop_last() =~= rs.take(j as int));
            assert(rs.take(j as int + 1).last() == rs[j as int]);
        }
        let removed = topic_subs.unsubscribe_one(user, &topic);
        proof {
            match pos {
                None => {
                    if subscribed(old_v, topic@, user@) {
                        let k = choose|k: int|
                            0 <= k < old_v.len() && #[trigger] old_v[k].topic == topic@ && has_user(
                                old_v[k].subscribers,
                                user@,
                            );
                        assert(cur[k].topic == topic@);
                    }
                },
                Some(k) => {
                    assert(old_v[k].topic == topic@);
                    assert forall|i: int| 0 <= i < j implies rs[i].0 != old_v[k].topic by {
                        assert(rs[i].0 != rs[j as int].0);
                    }
                    assert(cur[k] == old_v[k]);
                    lemma_topic_at(old_v, topic@, k);
                    if subscribed(old_v, topic@, user@) {
                        let m = choose|m: int|
                            0 <= m < old_v.len() && #[trigger] old_v[m].topic == topic@ && has_user(
                                old_v[m].subscribers,
                                user@,
                            );
                        assert(m == k);
                    }
                },
            }
        }
        if removed {
            left.push(copy_string(&topic));
        }
        j = j + 1;
    }
    proof {
        assert(rs.take(rs.len() as int) =~= rs);
    }
    left
}

} // verus!
