//! Subscription registry: given the ordered subscriptions of one connection,
//! builds the correlation map from channel identifier to subscription and the
//! outbound subscribe payloads, validating eagerly that every stream kind is
//! supported and that no two subscriptions collide on their identifier.

use vstd::prelude::*;

use crate::exchange::ExchangeServer;
use crate::model::{DataError, Subscription, SubscriptionId, SubscriptionIds, SubscriptionMeta};

verus! {

/// The views of a sequence of strings.
pub open spec fn views_of(ss: Seq<String>) -> Seq<Seq<char>> {
    ss.map_values(|s: String| s@)
}

/// Every subscription's stream kind is supported by the exchange `S`.
pub open spec fn all_supported<S: ExchangeServer>(subs: Seq<Subscription>) -> bool {
    forall|i: int| 0 <= i < subs.len() ==> (#[trigger] S::spec_channel(subs[i])) is Some
}

/// No two subscriptions encode to the same channel identifier under `S`.
pub open spec fn channels_distinct<S: ExchangeServer>(subs: Seq<Subscription>) -> bool {
    forall|i: int, j: int|
        #![trigger S::spec_channel(subs[i]), S::spec_channel(subs[j])]
        0 <= i < j < subs.len() ==> !(S::spec_channel(subs[i]) is Some && S::spec_channel(subs[i])
            == S::spec_channel(subs[j]))
}

/// The channel identifiers of the subscriptions, in order, under `S`.
pub open spec fn channels_of<S: ExchangeServer>(subs: Seq<Subscription>) -> Seq<Seq<char>> {
    subs.map_values(|s: Subscription| S::spec_channel(s)->0)
}

/// A channel token wrapped in JSON string quotes.
pub open spec fn quoted(ch: Seq<char>) -> Seq<char> {
    "\""@ + ch + "\""@
}

/// The JSON array body listing every channel, quoted and comma-separated.
pub open spec fn params_list(chs: Seq<Seq<char>>) -> Seq<char>
    decreases chs.len(),
{
    if chs.len() == 0 {
        Seq::empty()
    } else if chs.len() == 1 {
        quoted(chs[0])
    } else {
        params_list(chs.drop_last()) + ","@ + quoted(chs.last())
    }
}

/// The single batched subscribe request covering every channel of the
/// connection.
pub open spec fn subscribe_payload(chs: Seq<Seq<char>>) -> Seq<char> {
    "{\"method\":\"SUBSCRIBE\",\"params\":["@ + params_list(chs) + "],\"id\":1}"@
}

/// Scans the entries built so far for one already registered under `ch`.
fn find_entry(entries: &Vec<(SubscriptionId, Subscription)>, ch: &String) -> (r: Option<usize>)
    ensures
        r matches Some(m) ==> 0 <= m < entries@.len() && entries@[m as int].0@ == ch@,
        r is None ==> forall|m: int| 0 <= m < entries@.len() ==> (#[trigger] entries@[m]).0@ != ch@,
{
    let mut m: usize = 0;
    while m < entries.len()
        invariant
            m <= entries@.len(),
            forall|k: int| 0 <= k < m ==> (#[trigger] entries@[k]).0@ != ch@,
        decreases entries@.len() - m,
    {
        if entries[m].0.0 == *ch {
            return Some(m);
        }
        m += 1;
    }
    None
}

/// Builds the [`SubscriptionMeta`] for one connection to exchange `S`.
///
/// Construction succeeds if and only if `S` supports every requested stream
/// kind and no two subscriptions encode to the same channel identifier; both
/// conditions are checked eagerly, before any data flows. On success the
/// correlation map registers every subscription under its channel identifier,
/// in order, and a single batched subscribe request is produced (none when no
/// subscription was requested), for which the exchange will send exactly one
/// acknowledgement.
#[verifier::loop_isolation(false)]
pub fn build_meta<S: ExchangeServer>(subscriptions: Vec<Subscription>) -> (r: Result<
    SubscriptionMeta,
    DataError,
>)
    ensures
        r is Ok <==> all_supported::<S>(subscriptions@) && channels_distinct::<S>(subscriptions@),
        r matches Ok(meta) ==> {
            &&& meta.ids.entries().len() == subscriptions@.len()
            &&& forall|i: int|
                0 <= i < subscriptions@.len() ==> (#[trigger] meta.ids.entries()[i]).0@
                    == S::spec_channel(subscriptions@[i])->0 && meta.ids.entries()[i].1
                    == subscriptions@[i]
            &&& meta.ids.distinct_ids()
            &&& meta.subscriptions@.len() == (
            if subscriptions@.len() == 0 {
                0int
            } else {
                1int
            })
            &&& meta.expected_responses == meta.subscriptions@.len()
            &&& subscriptions@.len() > 0 ==> meta.subscriptions@[0]@ == subscribe_payload(
                channels_of::<S>(subscriptions@),
            )
        },
        r matches Err(e) ==> match e {
            DataError::UnsupportedStreamKind(k) => exists|i: int|
                0 <= i < subscriptions@.len() && S::spec_channel(#[trigger] subscriptions@[i])
                    is None && subscriptions@[i].kind == k,
            DataError::DuplicateSubscriptionId(id) => exists|i: int, j: int|
                #![trigger subscriptions@[i], subscriptions@[j]]
                0 <= i < j < subscriptions@.len() && S::spec_channel(subscriptions@[i]) is Some
                    && S::spec_channel(subscriptions@[i]) == S::spec_channel(subscriptions@[j])
                    && S::spec_channel(subscriptions@[i]) == Some(id@),
            _ => false,
        },
{
    let ghost orig = subscriptions@;
    let mut rest = subscriptions;
    let mut entries: Vec<(SubscriptionId, Subscription)> = Vec::new();
    let mut channels: Vec<String> = Vec::new();
    while rest.len() > 0
        invariant
            entries@.len() == channels@.len(),
            entries@.len() + rest@.len() == orig.len(),
            rest@ == orig.skip(entries@.len() as int),
            forall|k: int|
                0 <= k < entries@.len() ==> S::spec_channel(#[trigger] orig[k]) is Some,
            forall|k: int|
                0 <= k < entries@.len() ==> (#[trigger] entries@[k]).0@ == S::spec_channel(
                    orig[k],
                )->0 && entries@[k].1 == orig[k],
            forall|k: int|
                0 <= k < channels@.len() ==> (#[trigger] channels@[k])@ == S::spec_channel(
                    orig[k],
                )->0,
            forall|k1: int, k2: int|
                #![trigger entries@[k1], entries@[k2]]
                0 <= k1 < k2 < entries@.len() ==> entries@[k1].0@ != entries@[k2].0@,
        decreases rest@.len(),
    {
        proof {
            let p = entries@.len() as int;
            assert(rest@[0] == orig[p]);
            assert(orig.skip(p).remove(0) =~= orig.skip(p + 1));
        }
        let sub = rest.remove(0);
        match S::channel(&sub) {
            None => {
                proof {
                    let p = entries@.len() as int;
                    assert(sub == orig[p]);
                    assert(S::spec_channel(orig[p]) is None);
                    assert(!all_supported::<S>(orig));
                }
                return Err(DataError::UnsupportedStreamKind(sub.kind));
            },
            Some(ch) => {
                match find_entry(&entries, &ch) {
                    Some(m) => {
                        proof {
                            let i = m as int;
                            let j = entries@.len() as int;
                            assert(S::spec_channel(orig[i]) == Some(ch@));
                            assert(S::spec_channel(orig[j]) == Some(ch@));
                            assert(0 <= i < j < orig.len() && S::spec_channel(orig[i]) is Some
                                && S::spec_channel(orig[i]) == S::spec_channel(orig[j])
                                && S::spec_channel(orig[i]) == Some(ch@));
                        }
                        return Err(DataError::DuplicateSubscriptionId(SubscriptionId(ch)));
                    },
                    None => {
                        channels.push(ch.clone());
                        entries.push((SubscriptionId(ch), sub));
                    },
                }
            },
        }
    }
    proof {
        assert(entries@.len() == orig.len());
        assert forall|i: int, j: int|
            #![trigger S::spec_channel(orig[i]), S::spec_channel(orig[j])]
            0 <= i < j < orig.len() implies !(S::spec_channel(orig[i]) is Some && S::spec_channel(
            orig[i],
        ) == S::spec_channel(orig[j])) by {
            assert(entries@[i].0@ == S::spec_channel(orig[i])->0);
            assert(entries@[j].0@ == S::spec_channel(orig[j])->0);
        }
    }
    let expected: usize = if entries.len() == 0 {
        0
    } else {
        1
    };
    let mut payloads: Vec<String> = Vec::new();
    if channels.len() > 0 {
        let mut params = String::new();
        let mut k: usize = 0;
        while k < channels.len()
            invariant
                k <= channels@.len(),
                params@ == params_list(views_of(channels@.take(k as int))),
                forall|m: int|
                    0 <= m < channels@.len() ==> (#[trigger] channels@[m])@ == S::spec_channel(
                        orig[m],
                    )->0,
                channels@.len() == orig.len(),
            decreases channels@.len() - k,
        {
            proof {
                assert(views_of(channels@.take(k + 1)).drop_last() =~= views_of(
                    channels@.take(k as int),
                ));
                assert(views_of(channels@.take(k + 1)).last() == channels@[k as int]@);
            }
            if k > 0 {
                params.append(",");
            }
            params.append("\"");
            params.append(channels[k].as_str());
            params.append("\"");
            proof {
                let chs = views_of(channels@.take(k + 1));
                if k == 0 {
                    assert(params@ =~= quoted(chs[0]));
                    assert(params@ == params_list(chs));
                } else {
                    assert(params@ =~= params_list(chs.drop_last()) + ","@ + quoted(chs.last()));
                    assert(params@ == params_list(chs));
                }
            }
            k += 1;
        }
        let mut payload = String::from_str("{\"method\":\"SUBSCRIBE\",\"params\":[");
        payload.append(params.as_str());
        payload.append("],\"id\":1}");
        proof {
            assert(channels@.take(channels@.len() as int) =~= channels@);
            assert(views_of(channels@) =~= channels_of::<S>(orig));
            assert(payload@ =~= subscribe_payload(channels_of::<S>(orig)));
        }
        payloads.push(payload);
    }
    Ok(SubscriptionMeta { ids: SubscriptionIds(entries), expected_responses: expected, subscriptions: payloads })
}

} // verus!
