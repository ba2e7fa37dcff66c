//! The laws the store obeys, stated over the same step functions that the
//! entry points' contracts use, and proved once for all inputs.

use vstd::prelude::*;

use crate::aof::{
    del_word, lemma_split_word_spaced, parse_line, record_of, replay_line, set_word, space_free,
    spaced,
    split_spaces,
};
use crate::engine::{
    absent_text, apply_del, count_report, del_count, must_propagate, step_map, step_value,
};
use crate::request::{is_mutating_type, RequestType};

verus! {

/// Round trip: setting a key and then reading that key answers exactly the
/// value that was set, whatever was stored before.
pub proof fn lemma_set_then_get(m: Map<Seq<char>, Seq<char>>, k: Seq<char>, v: Seq<char>)
    ensures
        step_value(
            step_map(m, RequestType::SetValue, seq![k], Some(v)),
            RequestType::Get,
            seq![k],
            None,
        ) == Some(v),
{
}

/// Absence: reading a key that was never set answers the absent sentinel.
pub proof fn lemma_get_absent(m: Map<Seq<char>, Seq<char>>, k: Seq<char>)
    requires
        !m.contains_key(k),
    ensures
        step_value(m, RequestType::Get, seq![k], None) == Some(absent_text()),
{
}

/// Deletion count: deleting two keys of which only the first exists counts
/// one removal, and afterwards neither key is readable.
pub proof fn lemma_del_one_of_two(m: Map<Seq<char>, Seq<char>>, k1: Seq<char>, k2: Seq<char>)
    requires
        m.contains_key(k1),
        !m.contains_key(k2),
    ensures
        del_count(m, seq![k1, k2]) == 1,
        step_value(m, RequestType::Del, seq![k1, k2], None) == Some(count_report(1)),
        step_value(
            step_map(m, RequestType::Del, seq![k1, k2], None),
            RequestType::Get,
            seq![k1],
            None,
        ) == Some(absent_text()),
        step_value(
            step_map(m, RequestType::Del, seq![k1, k2], None),
            RequestType::Get,
            seq![k2],
            None,
        ) == Some(absent_text()),
{
    let keys = seq![k1, k2];
    assert(keys.skip(1) =~= seq![k2]);
    assert(seq![k2].skip(1) =~= Seq::<Seq<char>>::empty());
    let m1 = m.remove(k1);
    let m2 = m1.remove(k2);
    assert(del_count(m2, Seq::<Seq<char>>::empty()) == 0);
    assert(apply_del(m2, Seq::<Seq<char>>::empty()) == m2);
    assert(del_count(m1, seq![k2]) == 0);
    assert(apply_del(m1, seq![k2]) == m2);
    assert(del_count(m, keys) == 1);
    assert(apply_del(m, keys) == m2);
}

/// Idempotent overwrite: setting a key twice and then reading it answers the
/// second value.
pub proof fn lemma_overwrite(
    m: Map<Seq<char>, Seq<char>>,
    k: Seq<char>,
    v1: Seq<char>,
    v2: Seq<char>,
)
    ensures
        step_value(
            step_map(
                step_map(m, RequestType::SetValue, seq![k], Some(v1)),
                RequestType::SetValue,
                seq![k],
                Some(v2),
            ),
            RequestType::Get,
            seq![k],
            None,
        ) == Some(v2),
{
}

/// Replay fidelity, general form: the record written for a mutation parses
/// back into exactly that mutation, as long as every field stays inside the
/// record grammar (no embedded spaces).
pub proof fn lemma_record_round_trip(
    rt: RequestType,
    keys: Seq<Seq<char>>,
    val: Option<Seq<char>>,
)
    requires
        is_mutating_type(rt),
        rt is SetValue ==> keys.len() == 1 && val is Some && space_free(val->Some_0),
        rt is Del ==> keys.len() >= 1 && val is None,
        forall|x: int| 0 <= x < keys.len() ==> space_free(#[trigger] keys[x]),
    ensures
        parse_line(record_of(rt, keys, val)).0 == rt,
        parse_line(record_of(rt, keys, val)).1 == keys,
        parse_line(record_of(rt, keys, val)).2 == val,
{
    assert(set_word()[0] == 'S' && set_word()[1] == 'E' && set_word()[2] == 'T');
    assert(del_word()[0] == 'D');
    assert(space_free(set_word()));
    assert(space_free(del_word()));
    if rt is SetValue {
        let k = keys[0];
        let v = val->Some_0;
        let fields = seq![k, v];
        assert(fields.skip(1) =~= seq![v]);
        assert(seq![v].skip(1) =~= Seq::<Seq<char>>::empty());
        assert(spaced(Seq::<Seq<char>>::empty()) =~= Seq::<char>::empty());
        assert(spaced(seq![v]) =~= seq![' '] + v);
        assert(spaced(fields) =~= seq![' '] + k + (seq![' '] + v));
        assert(record_of(rt, keys, val) =~= set_word() + spaced(fields));
        assert(forall|x: int, j: int|
            0 <= x < fields.len() && 0 <= j < fields[x].len() ==> fields[x][j] != ' ');
        lemma_split_word_spaced(set_word(), fields);
        let toks = split_spaces(record_of(rt, keys, val));
        assert(toks =~= seq![set_word(), k, v]);
        assert(keys =~= seq![k]);
    } else {
        assert(record_of(rt, keys, val) == del_word() + spaced(keys));
        assert(forall|x: int, j: int|
            0 <= x < keys.len() && 0 <= j < keys[x].len() ==> keys[x][j] != ' ');
        lemma_split_word_spaced(del_word(), keys);
        let toks = split_spaces(record_of(rt, keys, val));
        assert(toks =~= seq![del_word()] + keys);
        assert(toks[0] == del_word());
        assert(del_word()[0] != set_word()[0]);
        assert(toks.skip(1) =~= keys);
    }
}

/// Replay fidelity, applied: replaying the record written for a mutation
/// performs exactly that mutation on the map.
pub proof fn lemma_replay_record(
    m: Map<Seq<char>, Seq<char>>,
    rt: RequestType,
    keys: Seq<Seq<char>>,
    val: Option<Seq<char>>,
)
    requires
        is_mutating_type(rt),
        rt is SetValue ==> keys.len() == 1 && val is Some && space_free(val->Some_0),
        rt is Del ==> keys.len() >= 1 && val is None,
        forall|x: int| 0 <= x < keys.len() ==> space_free(#[trigger] keys[x]),
    ensures
        replay_line(m, record_of(rt, keys, val)) == step_map(m, rt, keys, val),
{
    lemma_record_round_trip(rt, keys, val);
}

/// Replication propagation: a set committed on a primary node is owed a
/// fan-out, and a replica that applies the fanned-out set afterwards answers
/// a get on that key with the propagated value.
pub proof fn lemma_replication_propagation(replica: Map<Seq<char>, Seq<char>>, k: Seq<char>, v: Seq<char>)
    ensures
        must_propagate(RequestType::SetValue, true),
        step_value(
            step_map(replica, RequestType::SetValue, seq![k], Some(v)),
            RequestType::Get,
            seq![k],
            None,
        ) == Some(v),
{
}

/// Removing a key first or last makes no difference to a run of removals.
proof fn lemma_remove_del_commute(m: Map<Seq<char>, Seq<char>>, keys: Seq<Seq<char>>, k: Seq<char>)
    ensures
        apply_del(m.remove(k), keys) == apply_del(m, keys).remove(k),
    decreases keys.len(),
{
    if keys.len() == 0 {
    } else {
        assert(m.remove(k).remove(keys[0]) =~= m.remove(keys[0]).remove(k));
        lemma_remove_del_commute(m.remove(keys[0]), keys.skip(1), k);
    }
}

/// Inserting a key that a run of removals does not touch commutes with it.
proof fn lemma_insert_del_commute(
    m: Map<Seq<char>, Seq<char>>,
    keys: Seq<Seq<char>>,
    k: Seq<char>,
    v: Seq<char>,
)
    requires
        forall|x: int| 0 <= x < keys.len() ==> keys[x] != k,
    ensures
        apply_del(m.insert(k, v), keys) == apply_del(m, keys).insert(k, v),
    decreases keys.len(),
{
    if keys.len() == 0 {
    } else {
        assert(m.insert(k, v).remove(keys[0]) =~= m.remove(keys[0]).insert(k, v));
        lemma_insert_del_commute(m.remove(keys[0]), keys.skip(1), k, v);
    }
}

/// Two runs of removals commute.
proof fn lemma_del_del_commute(m: Map<Seq<char>, Seq<char>>, a: Seq<Seq<char>>, b: Seq<Seq<char>>)
    ensures
        apply_del(apply_del(m, a), b) == apply_del(apply_del(m, b), a),
    decreases b.len(),
{
    if b.len() == 0 {
    } else {
        lemma_remove_del_commute(m, a, b[0]);
        lemma_del_del_commute(m.remove(b[0]), a, b.skip(1));
    }
}

/// Concurrent safety: two commands whose key sets are disjoint reach the same
/// map in either order, so any serialization of commands on disjoint keys
/// agrees on the final state.
pub proof fn lemma_disjoint_ops_commute(
    m: Map<Seq<char>, Seq<char>>,
    rt1: RequestType,
    keys1: Seq<Seq<char>>,
    val1: Option<Seq<char>>,
    rt2: RequestType,
    keys2: Seq<Seq<char>>,
    val2: Option<Seq<char>>,
)
    requires
        forall|x: int, y: int|
            0 <= x < keys1.len() && 0 <= y < keys2.len() ==> #[trigger] keys1[x] != #[trigger] keys2[y],
        rt1 is SetValue ==> keys1.len() >= 1 && val1 is Some,
        rt2 is SetValue ==> keys2.len() >= 1 && val2 is Some,
    ensures
        step_map(step_map(m, rt1, keys1, val1), rt2, keys2, val2) == step_map(
            step_map(m, rt2, keys2, val2),
            rt1,
            keys1,
            val1,
        ),
{
    if rt1 is SetValue && rt2 is SetValue {
        assert(m.insert(keys1[0], val1->Some_0).insert(keys2[0], val2->Some_0) =~= m.insert(
            keys2[0],
            val2->Some_0,
        ).insert(keys1[0], val1->Some_0));
    } else if rt1 is SetValue && rt2 is Del {
        lemma_insert_del_commute(m, keys2, keys1[0], val1->Some_0);
    } else if rt1 is Del && rt2 is SetValue {
        lemma_insert_del_commute(m, keys1, keys2[0], val2->Some_0);
    } else if rt1 is Del && rt2 is Del {
        lemma_del_del_commute(m, keys1, keys2);
    }
}

} // verus!

