//! The append-only log's textual record grammar, and its replay.
//!
//! A committed mutation is written as one line: `SET <key> <value>` for a set,
//! `DEL <key1> ... <keyN>` for a delete, fields separated by single spaces and
//! nothing escaped. Replay splits each line on spaces, applies the lines it
//! can read as mutations, and ignores every other line. Because nothing is
//! escaped, a key or value that itself holds a space falls out of the grammar:
//! the round-trip laws are stated for space-free fields.

use vstd::prelude::*;
use vstd::string::StrSliceExecFns;

use crate::engine::step_map;
use crate::request::{is_mutating_type, RedisRequest, RequestType};
use crate::store::Store;

verus! {

/// The leading word of a set record, without its separator.
pub open spec fn set_word() -> Seq<char> {
    seq!['S', 'E', 'T']
}

/// The leading word and separator of a set record.
pub open spec fn set_prefix() -> Seq<char> {
    seq!['S', 'E', 'T', ' ']
}

/// The leading word of a delete record.
pub open spec fn del_word() -> Seq<char> {
    seq!['D', 'E', 'L']
}

/// Whether a field stays inside the record grammar: it holds no space, the
/// one separator the grammar knows.
pub open spec fn space_free(s: Seq<char>) -> bool {
    forall|j: int| 0 <= j < s.len() ==> s[j] != ' '
}

/// Each key, preceded by one space, in order.
pub open spec fn spaced(keys: Seq<Seq<char>>) -> Seq<char>
    decreases keys.len(),
{
    if keys.len() == 0 {
        Seq::empty()
    } else {
        seq![' '] + keys[0] + spaced(keys.skip(1))
    }
}

/// The log record of one mutating command.
pub open spec fn record_of(rt: RequestType, keys: Seq<Seq<char>>, val: Option<Seq<char>>) -> Seq<
    char,
>
    recommends
        is_mutating_type(rt),
{
    match rt {
        RequestType::SetValue => set_prefix() + keys[0] + seq![' '] + val->Some_0,
        RequestType::Del => del_word() + spaced(keys),
        _ => Seq::empty(),
    }
}

/// Appending one key extends the spaced rendering at its end.
pub proof fn lemma_spaced_push(keys: Seq<Seq<char>>, k: Seq<char>)
    ensures
        spaced(keys.push(k)) == spaced(keys) + seq![' '] + k,
    decreases keys.len(),
{
    if keys.len() == 0 {
        assert(keys.push(k).skip(1) =~= Seq::<Seq<char>>::empty());
        assert(spaced(Seq::<Seq<char>>::empty()) =~= Seq::<char>::empty());
        assert(spaced(keys.push(k)) =~= seq![' '] + k);
        assert(spaced(keys) =~= Seq::<char>::empty());
        assert(spaced(keys.push(k)) =~= spaced(keys) + seq![' '] + k);
    } else {
        assert(keys.push(k).skip(1) =~= keys.skip(1).push(k));
        lemma_spaced_push(keys.skip(1), k);
        assert(spaced(keys.push(k)) =~= spaced(keys) + seq![' '] + k);
    }
}

/// Renders one committed mutation as its log record, without the trailing
/// record separator (the caller appends one separator per record).
pub fn format_redis_operation(req: &RedisRequest) -> (r: String)
    requires
        req.wf(),
        req.is_mutating(),
    ensures
        r@ == record_of(req.request_type, req.keys(), req.value_view()),
{
    match req.request_type {
        RequestType::SetValue => {
            let mut s = String::from_str("SET ");
            s.append(req.key.as_ref().unwrap()[0].as_str());
            s.append(" ");
            s.append(req.value.as_ref().unwrap().as_str());
            proof {
                reveal_strlit("SET ");
                reveal_strlit(" ");
                assert(s@ =~= record_of(req.request_type, req.keys(), req.value_view()));
            }
            s
        },
        RequestType::Del => {
            let keys = req.key.as_ref().unwrap();
            let ghost key_views = req.keys();
            let mut s = String::from_str("DEL");
            proof {
                reveal_strlit("DEL");
                assert(key_views.take(0) =~= Seq::<Seq<char>>::empty());
                assert(s@ =~= del_word() + spaced(key_views.take(0)));
            }
            let n = keys.len();
            let mut i: usize = 0;
            while i < n
                invariant
                    n == keys.len(),
                    i <= n,
                    key_views == keys.deep_view(),
                    s@ == del_word() + spaced(key_views.take(i as int)),
                decreases n - i,
            {
                s.append(" ");
                s.append(keys[i].as_str());
                proof {
                    reveal_strlit(" ");
                    lemma_spaced_push(key_views.take(i as int), key_views[i as int]);
                    assert(key_views.take(i + 1) =~= key_views.take(i as int).push(
                        key_views[i as int],
                    ));
                    assert(s@ =~= del_word() + spaced(key_views.take(i + 1)));
                }
                i += 1;
            }
            proof {
                assert(key_views.take(n as int) =~= key_views);
            }
            s
        },
        _ => unreached(),
    }
}

/// Splitting on spaces, scanning left to right: `cur` is the token being
/// read; a space ends it, the end of the text ends the last one. Splitting
/// never yields fewer than one token, and tokens may be empty.
pub open spec fn split_acc(s: Seq<char>, cur: Seq<char>) -> Seq<Seq<char>>
    decreases s.len(),
{
    if s.len() == 0 {
        seq![cur]
    } else if s[0] == ' ' {
        seq![cur] + split_acc(s.skip(1), Seq::empty())
    } else {
        split_acc(s.skip(1), cur.push(s[0]))
    }
}

/// The space-separated tokens of a line.
pub open spec fn split_spaces(s: Seq<char>) -> Seq<Seq<char>> {
    split_acc(s, Seq::empty())
}

/// A text without spaces is one token, appended to the token being read.
pub proof fn lemma_split_acc_no_space(s: Seq<char>, cur: Seq<char>)
    requires
        forall|j: int| 0 <= j < s.len() ==> s[j] != ' ',
    ensures
        split_acc(s, cur) == seq![cur + s],
    decreases s.len(),
{
    if s.len() == 0 {
        assert(cur + s =~= cur);
    } else {
        lemma_split_acc_no_space(s.skip(1), cur.push(s[0]));
        assert(cur.push(s[0]) + s.skip(1) =~= cur + s);
    }
}

/// The first space ends the token being read; splitting goes on after it.
pub proof fn lemma_split_acc_first_space(s: Seq<char>, cur: Seq<char>, i: int)
    requires
        0 <= i < s.len(),
        s[i] == ' ',
        forall|j: int| 0 <= j < i ==> s[j] != ' ',
    ensures
        split_acc(s, cur) == seq![cur + s.take(i)] + split_acc(s.skip(i + 1), Seq::empty()),
    decreases i,
{
    if i == 0 {
        assert(cur + s.take(0) =~= cur);
    } else {
        lemma_split_acc_first_space(s.skip(1), cur.push(s[0]), i - 1);
        assert(s.skip(1).take(i - 1) =~= s.subrange(1, i));
        assert(cur.push(s[0]) + s.subrange(1, i) =~= cur + s.take(i));
        assert(s.skip(1).skip(i) =~= s.skip(i + 1));
    }
}

/// A word followed by further space-separated fields splits into the word and
/// the fields, provided none of them holds a space itself.
pub proof fn lemma_split_acc_extend(k: Seq<char>, keys: Seq<Seq<char>>, cur: Seq<char>)
    requires
        forall|j: int| 0 <= j < k.len() ==> k[j] != ' ',
        forall|x: int, j: int|
            0 <= x < keys.len() && 0 <= j < keys[x].len() ==> keys[x][j] != ' ',
    ensures
        split_acc(k + spaced(keys), cur) == seq![cur + k] + keys,
    decreases keys.len(),
{
    if keys.len() == 0 {
        assert(k + spaced(keys) =~= k);
        lemma_split_acc_no_space(k, cur);
        assert(seq![cur + k] + keys =~= seq![cur + k]);
    } else {
        let s = k + spaced(keys);
        assert(spaced(keys) == seq![' '] + keys[0] + spaced(keys.skip(1)));
        assert(s[k.len() as int] == ' ');
        assert(forall|j: int| 0 <= j < k.len() ==> s[j] == k[j]);
        lemma_split_acc_first_space(s, cur, k.len() as int);
        assert(s.take(k.len() as int) =~= k);
        assert(s.skip(k.len() as int + 1) =~= keys[0] + spaced(keys.skip(1)));
        assert(forall|x: int, j: int|
            0 <= x < keys.skip(1).len() && 0 <= j < keys.skip(1)[x].len() ==> keys.skip(1)[x][j]
                != ' ');
        lemma_split_acc_extend(keys[0], keys.skip(1), Seq::empty());
        assert(Seq::empty() + keys[0] =~= keys[0]);
        assert(seq![cur + k] + (seq![keys[0]] + keys.skip(1)) =~= seq![cur + k] + keys);
    }
}

/// A record made of a space-free word and space-free fields splits back into
/// exactly that word and those fields.
pub proof fn lemma_split_word_spaced(word: Seq<char>, keys: Seq<Seq<char>>)
    requires
        forall|j: int| 0 <= j < word.len() ==> word[j] != ' ',
        forall|x: int, j: int|
            0 <= x < keys.len() && 0 <= j < keys[x].len() ==> keys[x][j] != ' ',
    ensures
        split_spaces(word + spaced(keys)) == seq![word] + keys,
    decreases keys.len(),
{
    lemma_split_acc_extend(word, keys, Seq::empty());
    assert(Seq::empty() + word =~= word);
    assert(seq![Seq::<char>::empty() + word] + keys =~= seq![word] + keys);
}

/// What one log line means: the tokens decide the command. `SET` with exactly
/// two fields is a set; `DEL` with any fields is a delete; every other line
/// means nothing and is ignored on replay.
pub open spec fn parse_line(line: Seq<char>) -> (RequestType, Seq<Seq<char>>, Option<Seq<char>>) {
    let toks = split_spaces(line);
    if toks[0] == set_word() && toks.len() == 3 {
        (RequestType::SetValue, seq![toks[1]], Some(toks[2]))
    } else if toks[0] == del_word() {
        (RequestType::Del, toks.skip(1), None)
    } else {
        (RequestType::Illegal, Seq::empty(), None)
    }
}

/// Splits a line into its space-separated tokens.
pub fn split_spaces_exec(line: &str) -> (toks: Vec<String>)
    ensures
        toks.deep_view() == split_spaces(line@),
        toks@.len() >= 1,
{
    let n = line.unicode_len();
    let mut toks: Vec<String> = Vec::new();
    let mut start: usize = 0;
    let mut i: usize = 0;
    proof {
        assert(line@.skip(0) =~= line@);
        assert(toks.deep_view() =~= Seq::<Seq<char>>::empty());
    }
    while i < n
        invariant
            n == line@.len(),
            start <= i <= n,
            forall|j: int| start <= j < i ==> line@[j] != ' ',
            toks.deep_view() + split_acc(line@.skip(start as int), Seq::empty()) == split_spaces(
                line@,
            ),
        decreases n - i,
    {
        let c = line.get_char(i);
        if c == ' ' {
            let ghost toks0 = toks.deep_view();
            let tok = line.substring_char(start, i).to_owned();
            toks.push(tok);
            proof {
                let rest = line@.skip(start as int);
                lemma_split_acc_first_space(rest, Seq::empty(), i - start as int);
                assert(rest.take(i - start as int) =~= line@.subrange(start as int, i as int));
                assert(Seq::empty() + line@.subrange(start as int, i as int) =~= line@.subrange(
                    start as int,
                    i as int,
                ));
                assert(rest.skip(i - start as int + 1) =~= line@.skip(i + 1));
                assert(toks.deep_view() =~= toks0.push(line@.subrange(start as int, i as int)));
                assert(toks.deep_view() + split_acc(line@.skip(i + 1), Seq::empty())
                    =~= split_spaces(line@));
            }
            start = i + 1;
        }
        i += 1;
    }
    let ghost toks0 = toks.deep_view();
    let tok = line.substring_char(start, n).to_owned();
    toks.push(tok);
    proof {
        lemma_split_acc_no_space(line@.skip(start as int), Seq::empty());
        assert(Seq::empty() + line@.skip(start as int) =~= line@.skip(start as int));
        assert(toks.deep_view() =~= toks0.push(line@.skip(start as int)));
        assert(toks.deep_view() =~= split_spaces(line@));
    }
    toks
}

/// Reads one log line back into a command: the inverse of the record grammar
/// for readable lines, and the illegal tag for every other line.
pub fn parse_redis_operation(line: &str) -> (req: RedisRequest)
    ensures
        req.request_type == parse_line(line@).0,
        req.keys() == parse_line(line@).1,
        req.value_view() == parse_line(line@).2,
        req.request_type is SetValue ==> req.wf(),
        req.request_type is Del ==> req.key is Some && req.value is None,
{
    let toks = split_spaces_exec(line);
    let set_lit = String::from_str("SET");
    let del_lit = String::from_str("DEL");
    proof {
        reveal_strlit("SET");
        reveal_strlit("DEL");
        assert(set_lit@ =~= set_word());
        assert(del_lit@ =~= del_word());
        assert(toks.deep_view()[0] == toks@[0]@);
    }
    if toks.len() == 3 && toks[0].eq(&set_lit) {
        let req = RedisRequest {
            request_type: RequestType::SetValue,
            key: Some(vec![toks[1].clone()]),
            value: Some(toks[2].clone()),
        };
        proof {
            assert(req.keys() =~= seq![toks.deep_view()[1]]);
        }
        req
    } else if toks[0].eq(&del_lit) {
        let mut ks: Vec<String> = Vec::new();
        let n = toks.len();
        let mut i: usize = 1;
        proof {
            assert(ks.deep_view() =~= toks.deep_view().subrange(1, 1));
        }
        while i < n
            invariant
                n == toks.len(),
                1 <= i <= n,
                ks.deep_view() == toks.deep_view().subrange(1, i as int),
            decreases n - i,
        {
            let ghost ks0 = ks.deep_view();
            ks.push(toks[i].clone());
            proof {
                assert(ks.deep_view() =~= ks0.push(toks.deep_view()[i as int]));
                assert(ks.deep_view() =~= toks.deep_view().subrange(1, i + 1));
            }
            i += 1;
        }
        proof {
            assert(toks.deep_view().subrange(1, n as int) =~= toks.deep_view().skip(1));
        }
        RedisRequest { request_type: RequestType::Del, key: Some(ks), value: None }
    } else {
        RedisRequest { request_type: RequestType::Illegal, key: None, value: None }
    }
}

/// The map after replaying one log line: a readable mutation applies, every
/// other line leaves the map as it is.
pub open spec fn replay_line(m: Map<Seq<char>, Seq<char>>, line: Seq<char>) -> Map<
    Seq<char>,
    Seq<char>,
> {
    let p = parse_line(line);
    step_map(m, p.0, p.1, p.2)
}

/// The map after replaying the log's lines in order.
pub open spec fn replay(m: Map<Seq<char>, Seq<char>>, lines: Seq<Seq<char>>) -> Map<
    Seq<char>,
    Seq<char>,
>
    decreases lines.len(),
{
    if lines.len() == 0 {
        m
    } else {
        replay(replay_line(m, lines[0]), lines.skip(1))
    }
}

/// Replaying one more line replays it after the earlier ones.
pub proof fn lemma_replay_push(m: Map<Seq<char>, Seq<char>>, lines: Seq<Seq<char>>, l: Seq<char>)
    ensures
        replay(m, lines.push(l)) == replay_line(replay(m, lines), l),
    decreases lines.len(),
{
    if lines.len() == 0 {
        assert(lines.push(l).skip(1) =~= Seq::<Seq<char>>::empty());
        assert(lines.push(l)[0] == l);
        assert(replay(m, lines) == m);
        assert(replay(replay_line(m, l), Seq::<Seq<char>>::empty()) == replay_line(m, l));
    } else {
        assert(lines.push(l).skip(1) =~= lines.skip(1).push(l));
        lemma_replay_push(replay_line(m, lines[0]), lines.skip(1), l);
    }
}

/// Replays the log's lines, in order, into the given store: each line that
/// reads as a mutation is applied, every other line is ignored. Reading the
/// lines from the backing file — and treating a missing file as an empty
/// log — is the embedding process's business.
pub fn rebuild_data_from_aof(store: &mut Store, lines: &Vec<String>)
    ensures
        final(store)@ == replay(old(store)@, lines.deep_view()),
{
    let ghost m0 = store@;
    let ghost line_views = lines.deep_view();
    let n = lines.len();
    let mut i: usize = 0;
    proof {
        assert(line_views.take(0) =~= Seq::<Seq<char>>::empty());
    }
    while i < n
        invariant
            n == lines.len(),
            i <= n,
            line_views == lines.deep_view(),
            store@ == replay(m0, line_views.take(i as int)),
        decreases n - i,
    {
        proof {
            assert(line_views[i as int] == lines[i as int]@);
        }
        let req = parse_redis_operation(lines[i].as_str());
        match req.request_type {
            RequestType::SetValue => {
                let ks = req.key.as_ref().unwrap();
                proof {
                    assert(req.keys()[0] == ks[0]@);
                }
                store.insert(ks[0].clone(), req.value.as_ref().unwrap().clone());
            },
            RequestType::Del => {
                let ks = req.key.as_ref().unwrap();
                crate::engine::remove_keys(store, ks);
            },
            _ => {},
        }
        proof {
            lemma_replay_push(m0, line_views.take(i as int), line_views[i as int]);
            assert(line_views.take(i + 1) =~= line_views.take(i as int).push(
                line_views[i as int],
            ));
        }
        i += 1;
    }
    proof {
        assert(line_views.take(n as int) =~= line_views);
    }
}

} // verus!
