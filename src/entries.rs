use vstd::prelude::*;
use vstd::string::*;

use crate::options::UsageError;
use crate::text::{
    is_sole, lower_of, lowercase, split_on_sole, split_sole, trim_end, trim_start, trimmed_end,
    trimmed_start,
};

verus! {

pub open spec fn views(v: Seq<String>) -> Seq<Seq<char>> {
    v.map_values(|s: String| s@)
}

pub open spec fn pair_views(v: Seq<(String, String)>) -> Seq<(Seq<char>, Seq<char>)> {
    v.map_values(|p: (String, String)| (p.0@, p.1@))
}

/// The mapping that the pairs give, a later pair winning over an earlier one
/// with the same key.
pub open spec fn pairs_map(ps: Seq<(Seq<char>, Seq<char>)>) -> Map<Seq<char>, Seq<char>>
    decreases ps.len(),
{
    if ps.len() == 0 {
        Map::empty()
    } else {
        pairs_map(ps.drop_last()).insert(ps.last().0, ps.last().1)
    }
}

pub open spec fn keys_unique(ps: Seq<(Seq<char>, Seq<char>)>) -> bool {
    forall|i: int, j: int| 0 <= i < j < ps.len() ==> ps[i].0 != ps[j].0
}

/// The name and value of a header token `name:value`: the name in lower case,
/// the value without trailing whitespace.
pub open spec fn header_entry(t: Seq<char>) -> Option<(Seq<char>, Seq<char>)> {
    match split_on_sole(t, ':') {
        Some((a, b)) => Some((lower_of(a), trimmed_end(b))),
        None => None,
    }
}

/// The key and value of a form token `key=value`: the value without leading
/// whitespace.
pub open spec fn form_entry(t: Seq<char>) -> Option<(Seq<char>, Seq<char>)> {
    match split_on_sole(t, '=') {
        Some((a, b)) => Some((a, trimmed_start(b))),
        None => None,
    }
}

/// Each token holds its separator `c` exactly once.
pub open spec fn well_formed(ts: Seq<Seq<char>>, c: char) -> bool {
    forall|j: int| 0 <= j < ts.len() ==> (#[trigger] split_on_sole(ts[j], c)) is Some
}

/// `i` is the first token that does not hold its separator `c` exactly once.
pub open spec fn first_malformed(ts: Seq<Seq<char>>, c: char, i: int) -> bool {
    &&& 0 <= i < ts.len()
    &&& split_on_sole(ts[i], c) is None
    &&& well_formed(ts.take(i), c)
}

/// The headers that well-formed header tokens give.
pub open spec fn headers_of(ts: Seq<Seq<char>>) -> Map<Seq<char>, Seq<char>> {
    pairs_map(ts.map_values(|t: Seq<char>| header_entry(t)->0))
}

/// The form fields that well-formed form tokens give.
pub open spec fn fields_of(ts: Seq<Seq<char>>) -> Map<Seq<char>, Seq<char>> {
    pairs_map(ts.map_values(|t: Seq<char>| form_entry(t)->0))
}

/// The fragments joined with `&` between each two.
pub open spec fn joined(fs: Seq<Seq<char>>) -> Seq<char>
    decreases fs.len(),
{
    if fs.len() == 0 {
        Seq::empty()
    } else if fs.len() == 1 {
        fs[0]
    } else {
        joined(fs.drop_last()) + seq!['&'] + fs.last()
    }
}

proof fn lemma_pairs_map_push(ps: Seq<(Seq<char>, Seq<char>)>, p: (Seq<char>, Seq<char>))
    ensures
        pairs_map(ps.push(p)) == pairs_map(ps).insert(p.0, p.1),
{
    assert(ps.push(p).drop_last() =~= ps);
}

proof fn lemma_pairs_map_replace(
    ps: Seq<(Seq<char>, Seq<char>)>,
    j: int,
    k: Seq<char>,
    v: Seq<char>,
)
    requires
        keys_unique(ps),
        0 <= j < ps.len(),
        ps[j].0 == k,
    ensures
        pairs_map(ps.update(j, (k, v))) == pairs_map(ps).insert(k, v),
        keys_unique(ps.update(j, (k, v))),
    decreases ps.len(),
{
    let qs = ps.update(j, (k, v));
    if j == ps.len() - 1 {
        assert(qs.drop_last() =~= ps.drop_last());
        assert(pairs_map(qs) =~= pairs_map(ps).insert(k, v));
    } else {
        assert(qs.drop_last() =~= ps.drop_last().update(j, (k, v)));
        lemma_pairs_map_replace(ps.drop_last(), j, k, v);
        assert(ps.last().0 != k);
        assert(pairs_map(qs) =~= pairs_map(ps).insert(k, v));
    }
}

/// Sets `k` to `v` among pairs with distinct keys: replaces the pair of that
/// key where there is one, else adds the pair at the end.
fn insert_last_wins(out: &mut Vec<(String, String)>, k: String, v: String)
    requires
        keys_unique(pair_views(old(out)@)),
    ensures
        keys_unique(pair_views(final(out)@)),
        pairs_map(pair_views(final(out)@)) == pairs_map(pair_views(old(out)@)).insert(k@, v@),
{
    let ghost ps = pair_views(out@);
    let mut j: usize = 0;
    while j < out.len()
        invariant
            ps == pair_views(out@),
            ps == pair_views(old(out)@),
            keys_unique(ps),
            j <= out@.len(),
            forall|m: int| 0 <= m < j ==> ps[m].0 != k@,
        decreases out@.len() - j,
    {
        if out[j].0 == k {
            let ghost kv = k@;
            let ghost vv = v@;
            assert(ps[j as int].0 == kv);
            out.set(j, (k, v));
            proof {
                assert(pair_views(out@) =~= ps.update(j as int, (kv, vv)));
                lemma_pairs_map_replace(ps, j as int, kv, vv);
            }
            return;
        }
        j = j + 1;
    }
    let ghost kv = k@;
    let ghost vv = v@;
    out.push((k, v));
    proof {
        assert(pair_views(out@) =~= ps.push((kv, vv)));
        lemma_pairs_map_push(ps, (kv, vv));
    }
}

/// Reads header tokens `name:value` into distinct headers, a later token
/// winning over an earlier one with the same name; fails on the first token
/// that does not hold exactly one colon.
pub fn parse_headers(tokens: &Vec<String>) -> (r: Result<Vec<(String, String)>, UsageError>)
    ensures
        match r {
            Ok(v) => {
                &&& well_formed(views(tokens@), ':')
                &&& keys_unique(pair_views(v@))
                &&& pairs_map(pair_views(v@)) == headers_of(views(tokens@))
            },
            Err(e) => exists|i: int|
                first_malformed(views(tokens@), ':', i) && (e matches UsageError::MalformedHeader(
                    t,
                ) && t@ == tokens@[i]@),
        },
{
    let ghost ts = views(tokens@);
    let ghost f = |t: Seq<char>| header_entry(t)->0;
    let mut out: Vec<(String, String)> = Vec::new();
    let mut i: usize = 0;
    while i < tokens.len()
        invariant
            ts == views(tokens@),
            f == (|t: Seq<char>| header_entry(t)->0),
            i <= tokens@.len(),
            well_formed(ts.take(i as int), ':'),
            keys_unique(pair_views(out@)),
            pairs_map(pair_views(out@)) == pairs_map(ts.take(i as int).map_values(f)),
        decreases tokens@.len() - i,
    {
        let t = tokens[i].as_str();
        match split_sole(t, ':') {
            None => {
                let bad = tokens[i].clone();
                assert(first_malformed(ts, ':', i as int));
                return Err(UsageError::MalformedHeader(bad));
            },
            Some((a, b)) => {
                let k = lowercase(a);
                let v = String::from_str(trim_end(b));
                insert_last_wins(&mut out, k, v);
                proof {
                    assert(ts.take(i + 1).map_values(f) =~= ts.take(i as int).map_values(f).push(
                        f(ts[i as int]),
                    ));
                    lemma_pairs_map_push(ts.take(i as int).map_values(f), f(ts[i as int]));
                    assert forall|j: int| 0 <= j < i + 1 implies (#[trigger] split_on_sole(
                        ts.take(i + 1)[j],
                        ':',
                    )) is Some by {
                        if j < i {
                            assert(ts.take(i + 1)[j] == ts.take(i as int)[j]);
                        }
                    }
                }
            },
        }
        i = i + 1;
    }
    assert(ts.take(i as int) =~= ts);
    Ok(out)
}

/// Reads form tokens `key=value` into distinct fields, a later token winning
/// over an earlier one with the same key; fails on the first token that does
/// not hold exactly one `=`.
pub fn parse_fields(tokens: &Vec<String>) -> (r: Result<Vec<(String, String)>, UsageError>)
    ensures
        match r {
            Ok(v) => {
                &&& well_formed(views(tokens@), '=')
                &&& keys_unique(pair_views(v@))
                &&& pairs_map(pair_views(v@)) == fields_of(views(tokens@))
            },
            Err(e) => exists|i: int|
                first_malformed(views(tokens@), '=', i) && (e matches UsageError::MalformedForm(
                    t,
                ) && t@ == tokens@[i]@),
        },
{
    let ghost ts = views(tokens@);
    let ghost f = |t: Seq<char>| form_entry(t)->0;
    let mut out: Vec<(String, String)> = Vec::new();
    let mut i: usize = 0;
    while i < tokens.len()
        invariant
            ts == views(tokens@),
            f == (|t: Seq<char>| form_entry(t)->0),
            i <= tokens@.len(),
            well_formed(ts.take(i as int), '='),
            keys_unique(pair_views(out@)),
            pairs_map(pair_views(out@)) == pairs_map(ts.take(i as int).map_values(f)),
        decreases tokens@.len() - i,
    {
        let t = tokens[i].as_str();
        match split_sole(t, '=') {
            None => {
                let bad = tokens[i].clone();
                assert(first_malformed(ts, '=', i as int));
                return Err(UsageError::MalformedForm(bad));
            },
            Some((a, b)) => {
                let k = String::from_str(a);
                let v = String::from_str(trim_start(b));
                insert_last_wins(&mut out, k, v);
                proof {
                    assert(ts.take(i + 1).map_values(f) =~= ts.take(i as int).map_values(f).push(
                        f(ts[i as int]),
                    ));
                    lemma_pairs_map_push(ts.take(i as int).map_values(f), f(ts[i as int]));
                    assert forall|j: int| 0 <= j < i + 1 implies (#[trigger] split_on_sole(
                        ts.take(i + 1)[j],
                        '=',
                    )) is Some by {
                        if j < i {
                            assert(ts.take(i + 1)[j] == ts.take(i as int)[j]);
                        }
                    }
                }
            },
        }
        i = i + 1;
    }
    assert(ts.take(i as int) =~= ts);
    Ok(out)
}

/// Joins data fragments, in their order, with `&` between each two.
pub fn join_data(fragments: &Vec<String>) -> (r: String)
    ensures
        r@ == joined(views(fragments@)),
{
    let ghost fs = views(fragments@);
    let mut out = String::new();
    let mut i: usize = 0;
    while i < fragments.len()
        invariant
            fs == views(fragments@),
            i <= fragments@.len(),
            out@ == joined(fs.take(i as int)),
        decreases fragments@.len() - i,
    {
        let ghost before = out@;
        proof {
            reveal_strlit("&");
        }
        if i > 0 {
            out.append("&");
        }
        out.append(fragments[i].as_str());
        assert(fs.take(i + 1).drop_last() =~= fs.take(i as int));
        assert(fs.take(i + 1).last() == fs[i as int]);
        assert("&"@ =~= seq!['&']);
        if i == 0 {
            assert(out@ =~= joined(fs.take(i + 1)));
        } else {
            assert(out@ =~= before + seq!['&'] + fs[i as int]);
        }
        i = i + 1;
    }
    assert(fs.take(i as int) =~= fs);
    out
}

/// A header token with one colon gives one header: its name in lower case,
/// its value without trailing whitespace.
pub proof fn lemma_header_token(t: Seq<char>, i: int)
    requires
        is_sole(t, ':', i),
    ensures
        header_entry(t) == Some((lower_of(t.take(i)), trimmed_end(t.skip(i + 1)))),
        headers_of(seq![t]) == map![lower_of(t.take(i)) => trimmed_end(t.skip(i + 1))],
{
    let j = choose|j: int| is_sole(t, ':', j);
    assert(j == i);
    let ps = seq![t].map_values(|t: Seq<char>| header_entry(t)->0);
    assert(ps.drop_last() =~= Seq::empty());
    assert(pairs_map(ps.drop_last()) == Map::<Seq<char>, Seq<char>>::empty());
    assert(ps.last() == header_entry(t)->0);
    assert(headers_of(seq![t]) =~= map![lower_of(t.take(i)) => trimmed_end(t.skip(i + 1))]);
}

/// A form token with one `=` gives one field: its key as it stands, its value
/// without leading whitespace.
pub proof fn lemma_form_token(t: Seq<char>, i: int)
    requires
        is_sole(t, '=', i),
    ensures
        form_entry(t) == Some((t.take(i), trimmed_start(t.skip(i + 1)))),
        fields_of(seq![t]) == map![t.take(i) => trimmed_start(t.skip(i + 1))],
{
    let j = choose|j: int| is_sole(t, '=', j);
    assert(j == i);
    let ps = seq![t].map_values(|t: Seq<char>| form_entry(t)->0);
    assert(ps.drop_last() =~= Seq::empty());
    assert(pairs_map(ps.drop_last()) == Map::<Seq<char>, Seq<char>>::empty());
    assert(ps.last() == form_entry(t)->0);
    assert(fields_of(seq![t]) =~= map![t.take(i) => trimmed_start(t.skip(i + 1))]);
}

/// A token with no separator, or with two or more, is rejected.
pub proof fn lemma_separator_count(t: Seq<char>, c: char)
    requires
        (forall|j: int| 0 <= j < t.len() ==> t[j] != c) || (exists|a: int, b: int|
            0 <= a < b < t.len() && t[a] == c && t[b] == c),
    ensures
        split_on_sole(t, c) is None,
        c == ':' ==> header_entry(t) is None,
        c == '=' ==> form_entry(t) is None,
{
    if exists|i: int| is_sole(t, c, i) {
        let i = choose|i: int| is_sole(t, c, i);
        if !(forall|j: int| 0 <= j < t.len() ==> t[j] != c) {
            let (a, b) = choose|a: int, b: int| 0 <= a < b < t.len() && t[a] == c && t[b] == c;
            assert(a == i && b == i);
        }
    }
}

/// Of pairs with equal keys the last one wins: a key maps to the value of the
/// last pair that holds it.
pub proof fn lemma_last_wins(ps: Seq<(Seq<char>, Seq<char>)>, i: int)
    requires
        0 <= i < ps.len(),
        forall|j: int| i < j < ps.len() ==> ps[j].0 != ps[i].0,
    ensures
        pairs_map(ps).contains_key(ps[i].0),
        pairs_map(ps)[ps[i].0] == ps[i].1,
    decreases ps.len(),
{
    if i < ps.len() - 1 {
        lemma_last_wins(ps.drop_last(), i);
        assert(ps.last().0 != ps[i].0);
    }
}

/// Fragments keep their order: one more fragment is added at the end, after
/// an `&`.
pub proof fn lemma_joined_push(fs: Seq<Seq<char>>, f: Seq<char>)
    requires
        fs.len() > 0,
    ensures
        joined(fs.push(f)) == joined(fs) + seq!['&'] + f,
{
    assert(fs.push(f).drop_last() =~= fs);
}

} // verus!
