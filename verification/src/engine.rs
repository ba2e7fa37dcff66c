//! The command engine: applies one command to a node's store and reports the
//! follow-up duties the caller owes (append a log record, fan the mutation out
//! to replicas, report a role violation, terminate).
//!
//! The engine itself is stateless across requests; all state lives in the
//! store. Each entry point is specified against a mathematical step function
//! on the store's map model, so the laws about command sequences are stated
//! and proved over those step functions alone.

use vstd::prelude::*;

use crate::aof::{format_redis_operation, record_of};
use crate::numeral::{dec_str, usize_to_decimal};
use crate::request::{is_mutating_type, RedisRequest, RedisResponse, RequestType, ResponseType};
use crate::store::Store;

verus! {

/// The acknowledgement payload of a ping.
pub open spec fn pong_text() -> Seq<char> {
    seq!['P', 'O', 'N', 'G']
}

/// The acknowledgement payload of a set.
pub open spec fn set_ack_text() -> Seq<char> {
    seq!['"', 'O', 'K', '"']
}

/// The sentinel payload of a get on an absent key.
pub open spec fn absent_text() -> Seq<char> {
    seq!['n', 'i', 'l']
}

/// The prefix of a delete's removal-count payload.
pub open spec fn count_prefix() -> Seq<char> {
    seq!['(', 'i', 'n', 't', 'e', 'g', 'e', 'r', ')', ' ']
}

/// The removal-count payload of a delete.
pub open spec fn count_report(count: nat) -> Seq<char> {
    count_prefix() + dec_str(count)
}

/// What a get returns: the stored value, or the absent sentinel.
pub open spec fn lookup(m: Map<Seq<char>, Seq<char>>, k: Seq<char>) -> Seq<char> {
    if m.contains_key(k) {
        m[k]
    } else {
        absent_text()
    }
}

/// The map after removing the listed keys, one at a time, in order.
pub open spec fn apply_del(m: Map<Seq<char>, Seq<char>>, keys: Seq<Seq<char>>) -> Map<
    Seq<char>,
    Seq<char>,
>
    decreases keys.len(),
{
    if keys.len() == 0 {
        m
    } else {
        apply_del(m.remove(keys[0]), keys.skip(1))
    }
}

/// How many of the listed keys were present when their turn came.
pub open spec fn del_count(m: Map<Seq<char>, Seq<char>>, keys: Seq<Seq<char>>) -> nat
    decreases keys.len(),
{
    if keys.len() == 0 {
        0
    } else {
        (if m.contains_key(keys[0]) {
            1nat
        } else {
            0nat
        }) + del_count(m.remove(keys[0]), keys.skip(1))
    }
}

/// Deleting one more key removes it from the result of deleting the earlier
/// ones, and counts it exactly when it was still present at that point.
pub proof fn lemma_apply_del_push(m: Map<Seq<char>, Seq<char>>, keys: Seq<Seq<char>>, k: Seq<char>)
    ensures
        apply_del(m, keys.push(k)) == apply_del(m, keys).remove(k),
        del_count(m, keys.push(k)) == del_count(m, keys) + (if apply_del(
            m,
            keys,
        ).contains_key(k) {
            1nat
        } else {
            0nat
        }),
    decreases keys.len(),
{
    if keys.len() == 0 {
        assert(keys.push(k).skip(1) =~= Seq::<Seq<char>>::empty());
        assert(apply_del(m, keys.push(k)) == apply_del(m.remove(k), Seq::<Seq<char>>::empty()));
        assert(del_count(m.remove(k), Seq::<Seq<char>>::empty()) == 0);
        assert(del_count(m, keys) == 0);
    } else {
        assert(keys.push(k).skip(1) =~= keys.skip(1).push(k));
        lemma_apply_del_push(m.remove(keys[0]), keys.skip(1), k);
    }
}

/// The store's map after one command.
pub open spec fn step_map(
    m: Map<Seq<char>, Seq<char>>,
    rt: RequestType,
    keys: Seq<Seq<char>>,
    val: Option<Seq<char>>,
) -> Map<Seq<char>, Seq<char>> {
    match rt {
        RequestType::SetValue => m.insert(keys[0], val->Some_0),
        RequestType::Del => apply_del(m, keys),
        _ => m,
    }
}

/// The value payload a command answers with on the client-facing entry point;
/// `None` means the command answers with no value (the exit command answers
/// with nothing at all, and the empty default response carries no value).
pub open spec fn step_value(
    m: Map<Seq<char>, Seq<char>>,
    rt: RequestType,
    keys: Seq<Seq<char>>,
    val: Option<Seq<char>>,
) -> Option<Seq<char>> {
    match rt {
        RequestType::Ping => Some(pong_text()),
        RequestType::Get => Some(lookup(m, keys[0])),
        RequestType::SetValue => Some(set_ack_text()),
        RequestType::Del => Some(count_report(del_count(m, keys))),
        RequestType::Exit => None,
        RequestType::Illegal => None,
    }
}

/// The response tag a command answers with on the client-facing entry point.
pub open spec fn step_rtype(rt: RequestType) -> ResponseType {
    match rt {
        RequestType::SetValue => ResponseType::Okay,
        RequestType::Illegal => ResponseType::Okay,
        _ => ResponseType::Value,
    }
}

/// A mutation is fanned out to the replicas exactly when a primary node
/// committed it through the client-facing entry point.
pub open spec fn must_propagate(rt: RequestType, is_main: bool) -> bool {
    is_mutating_type(rt) && is_main
}

/// A mutation on a replica through the client-facing entry point is a policy
/// violation; it is reported, and the mutation still proceeds.
pub open spec fn is_role_violation(rt: RequestType, is_main: bool) -> bool {
    is_mutating_type(rt) && !is_main
}

/// What the engine answered and what the caller still owes: the response to
/// send (none for a terminating command), the record to append to the log,
/// whether to fan the command out to the replicas, whether to report a role
/// violation, and whether to terminate the node.
pub struct Outcome {
    pub response: Option<RedisResponse>,
    pub log_record: Option<String>,
    pub propagate: bool,
    pub role_violation: bool,
    pub terminate: bool,
}

/// The full client-facing contract of one engine step: how the map changes
/// and what every field of the outcome holds.
pub open spec fn engine_step(
    pre: Map<Seq<char>, Seq<char>>,
    is_main: bool,
    req: RedisRequest,
    post: Map<Seq<char>, Seq<char>>,
    out: Outcome,
) -> bool {
    &&& post == step_map(pre, req.request_type, req.keys(), req.value_view())
    &&& out.terminate == (req.request_type is Exit)
    &&& out.propagate == must_propagate(req.request_type, is_main)
    &&& out.role_violation == is_role_violation(req.request_type, is_main)
    &&& (out.log_record is Some <==> req.is_mutating())
    &&& (req.is_mutating() ==> out.log_record->Some_0@ == record_of(
        req.request_type,
        req.keys(),
        req.value_view(),
    ))
    &&& (out.response is Some <==> !(req.request_type is Exit))
    &&& (!(req.request_type is Exit) ==> out.response->Some_0.response_type == step_rtype(
        req.request_type,
    ))
    &&& (!(req.request_type is Exit) ==> out.response->Some_0.value_view() == step_value(
        pre,
        req.request_type,
        req.keys(),
        req.value_view(),
    ))
}

/// Removes each listed key from the store, in order, and counts how many
/// were present when their turn came.
pub fn remove_keys(store: &mut Store, ks: &Vec<String>) -> (count: usize)
    ensures
        final(store)@ == apply_del(old(store)@, ks.deep_view()),
        count == del_count(old(store)@, ks.deep_view()),
        count <= ks.len(),
{
    let ghost m0 = store@;
    let ghost key_views = ks.deep_view();
    let n = ks.len();
    let mut count: usize = 0;
    let mut i: usize = 0;
    proof {
        assert(key_views.take(0) =~= Seq::<Seq<char>>::empty());
    }
    while i < n
        invariant
            n == ks.len(),
            i <= n,
            count <= i,
            key_views == ks.deep_view(),
            store@ == apply_del(m0, key_views.take(i as int)),
            count == del_count(m0, key_views.take(i as int)),
        decreases n - i,
    {
        proof {
            assert(key_views[i as int] == ks[i as int]@);
        }
        let present = store.remove(ks[i].as_str());
        if present {
            count += 1;
        }
        proof {
            lemma_apply_del_push(m0, key_views.take(i as int), key_views[i as int]);
            assert(key_views.take(i + 1) =~= key_views.take(i as int).push(key_views[i as int]));
        }
        i += 1;
    }
    proof {
        assert(key_views.take(n as int) =~= key_views);
    }
    count
}

/// One node: its store, the path of its append-only log, and its role.
pub struct S {
    pub map: Store,
    pub aof_path: String,
    pub is_main: bool,
}

impl S {
    /// Creates a node with an empty store.
    pub fn new(aof_path: String, is_main: bool) -> (s: S)
        ensures
            s.map@ == Map::<Seq<char>, Seq<char>>::empty(),
            s.aof_path@ == aof_path@,
            s.is_main == is_main,
    {
        S { map: Store::new(), aof_path, is_main }
    }

    /// Builds the removal-count payload of a delete.
    fn count_response(count: usize) -> (r: String)
        ensures
            r@ == count_report(count as nat),
    {
        let mut r = String::from_str("(integer) ");
        let digits = usize_to_decimal(count);
        r.append(digits.as_str());
        proof {
            reveal_strlit("(integer) ");
            assert(r@ =~= count_report(count as nat));
        }
        r
    }

    /// The client-facing entry point: executes one command against the store
    /// and reports the caller's follow-up duties. A ping or get touches
    /// nothing; a set or delete mutates the store and owes a log record, and,
    /// on a primary, a replication fan-out; a mutation on a replica through
    /// this entry point is reported as a role violation but still applied; an
    /// exit answers nothing and asks the node to terminate; an unrecognized
    /// command answers the empty default response.
    pub fn redis_command(&mut self, req: &RedisRequest) -> (out: Outcome)
        requires
            req.wf(),
        ensures
            engine_step(old(self).map@, old(self).is_main, *req, final(self).map@, out),
            final(self).is_main == old(self).is_main,
            final(self).aof_path == old(self).aof_path,
    {
        match req.request_type {
            RequestType::Ping => {
                let pong = String::from_str("PONG");
                proof {
                    reveal_strlit("PONG");
                    assert(pong@ =~= pong_text());
                }
                Outcome {
                    response: Some(
                        RedisResponse { response_type: ResponseType::Value, value: Some(pong) },
                    ),
                    log_record: None,
                    propagate: false,
                    role_violation: false,
                    terminate: false,
                }
            },
            RequestType::Get => {
                let ks = req.key.as_ref().unwrap();
                proof {
                    assert(req.keys()[0] == ks[0]@);
                }
                let value = match self.map.get(ks[0].as_str()) {
                    Some(v) => v.clone(),
                    None => {
                        let absent = String::from_str("nil");
                        proof {
                            reveal_strlit("nil");
                            assert(absent@ =~= absent_text());
                        }
                        absent
                    },
                };
                Outcome {
                    response: Some(
                        RedisResponse { response_type: ResponseType::Value, value: Some(value) },
                    ),
                    log_record: None,
                    propagate: false,
                    role_violation: false,
                    terminate: false,
                }
            },
            RequestType::SetValue => {
                let record = format_redis_operation(req);
                let ks = req.key.as_ref().unwrap();
                proof {
                    assert(req.keys()[0] == ks[0]@);
                }
                let k = ks[0].clone();
                let v = req.value.as_ref().unwrap().clone();
                self.map.insert(k, v);
                let ack = String::from_str("\"OK\"");
                proof {
                    reveal_strlit("\"OK\"");
                    assert(ack@ =~= set_ack_text());
                }
                Outcome {
                    response: Some(
                        RedisResponse { response_type: ResponseType::Okay, value: Some(ack) },
                    ),
                    log_record: Some(record),
                    propagate: self.is_main,
                    role_violation: !self.is_main,
                    terminate: false,
                }
            },
            RequestType::Del => {
                let record = format_redis_operation(req);
                let ks = req.key.as_ref().unwrap();
                let count = remove_keys(&mut self.map, ks);
                Outcome {
                    response: Some(
                        RedisResponse {
                            response_type: ResponseType::Value,
                            value: Some(Self::count_response(count)),
                        },
                    ),
                    log_record: Some(record),
                    propagate: self.is_main,
                    role_violation: !self.is_main,
                    terminate: false,
                }
            },
            RequestType::Exit => {
                Outcome {
                    response: None,
                    log_record: None,
                    propagate: false,
                    role_violation: false,
                    terminate: true,
                }
            },
            RequestType::Illegal => {
                Outcome {
                    response: Some(RedisResponse::default()),
                    log_record: None,
                    propagate: false,
                    role_violation: false,
                    terminate: false,
                }
            },
        }
    }

    /// The response tag of the replica-sync entry point.
    pub open spec fn sync_rtype(rt: RequestType) -> ResponseType {
        match rt {
            RequestType::Del => ResponseType::Value,
            _ => ResponseType::Okay,
        }
    }

    /// The value payload of the replica-sync entry point; commands other than
    /// set and delete answer the empty default response.
    pub open spec fn sync_value(
        m: Map<Seq<char>, Seq<char>>,
        rt: RequestType,
        keys: Seq<Seq<char>>,
    ) -> Option<Seq<char>> {
        match rt {
            RequestType::SetValue => Some(set_ack_text()),
            RequestType::Del => Some(count_report(del_count(m, keys))),
            _ => None,
        }
    }

    /// The replica-sync entry point: applies a set or delete sent by the
    /// primary directly to the local store, with no role check, no log record
    /// owed here, and no further fan-out (replication is single-hop). Any
    /// other command changes nothing and answers the empty default response.
    pub fn set_slave(&mut self, req: &RedisRequest) -> (resp: RedisResponse)
        requires
            req.is_mutating() ==> req.wf(),
        ensures
            final(self).map@ == step_map(
                old(self).map@,
                req.request_type,
                req.keys(),
                req.value_view(),
            ),
            final(self).is_main == old(self).is_main,
            final(self).aof_path == old(self).aof_path,
            resp.response_type == Self::sync_rtype(req.request_type),
            resp.value_view() == Self::sync_value(old(self).map@, req.request_type, req.keys()),
    {
        match req.request_type {
            RequestType::SetValue => {
                let ks = req.key.as_ref().unwrap();
                proof {
                    assert(req.keys()[0] == ks[0]@);
                }
                let k = ks[0].clone();
                let v = req.value.as_ref().unwrap().clone();
                self.map.insert(k, v);
                let ack = String::from_str("\"OK\"");
                proof {
                    reveal_strlit("\"OK\"");
                    assert(ack@ =~= set_ack_text());
                }
                RedisResponse { response_type: ResponseType::Okay, value: Some(ack) }
            },
            RequestType::Del => {
                let ks = req.key.as_ref().unwrap();
                let count = remove_keys(&mut self.map, ks);
                RedisResponse {
                    response_type: ResponseType::Value,
                    value: Some(Self::count_response(count)),
                }
            },
            _ => RedisResponse::default(),
        }
    }
}

} // verus!
