//! Scanning the entity list of a level: which entities name a model, which
//! are triggers, and which models the player collides with.

use vstd::prelude::*;
use crate::text::{
    chars_of, contains, contains_in, digits_value, is_digit, split_words, words,
};
use crate::types::EntityInfo;

verus! {

/// Whether `c` is numeric as `char::is_numeric` decides (the Unicode
/// general categories Nd, Nl and No).
pub uninterp spec fn is_numeric_char(c: char) -> bool;

/// Calls `char::is_numeric`. The contract names its result, and states the
/// documented consequence for ASCII: exactly the ten decimal digits are
/// numeric. What it answers for other characters is left unstated.
#[verifier::external_body]
fn char_is_numeric(c: char) -> (r: bool)
    ensures
        r == is_numeric_char(c),
        (c as u32) < 128 ==> (r <==> is_digit(c)),
{
    c.is_numeric()
}

/// The indices at which `c` occurs in `s`, in increasing order.
pub open spec fn positions(s: Seq<char>, c: char) -> Seq<int>
    decreases s.len(),
{
    if s.len() == 0 {
        seq![]
    } else if s.last() == c {
        positions(s.drop_last(), c).push(s.len() - 1)
    } else {
        positions(s.drop_last(), c)
    }
}

/// The numeric characters of `w`, in order.
pub open spec fn numeric_chars(w: Seq<char>) -> Seq<char>
    decreases w.len(),
{
    if w.len() == 0 {
        seq![]
    } else if is_numeric_char(w.last()) {
        numeric_chars(w.drop_last()).push(w.last())
    } else {
        numeric_chars(w.drop_last())
    }
}

/// The numeric characters of `v` form a decimal numeral that `str::parse`
/// accepts as an `i32`: not empty, ASCII digits only, and not above
/// `i32::MAX`.
pub open spec fn model_number_ok(v: Seq<char>) -> bool {
    let d = numeric_chars(v);
    &&& d.len() > 0
    &&& forall|i: int| 0 <= i < d.len() ==> is_digit(#[trigger] d[i])
    &&& digits_value(d) <= i32::MAX
}

pub open spec fn trigger_word() -> Seq<char> {
    seq!['t', 'r', 'i', 'g', 'g', 'e', 'r']
}

pub open spec fn model_word() -> Seq<char> {
    seq!['m', 'o', 'd', 'e', 'l']
}

/// One key/value pair applied to (model number, collide flag): a value
/// containing "trigger" marks the entity as not blocking; a key containing
/// "model" sets the model number to the digits of the value.
pub open spec fn pair_step(st: (int, int), key: Seq<char>, value: Seq<char>) -> (int, int) {
    (
        if contains(key, model_word()) {
            digits_value(numeric_chars(value))
        } else {
            st.0
        },
        if contains(value, trigger_word()) {
            -1
        } else {
            st.1
        },
    )
}

/// (model number, collide flag) after the first `n` key/value pairs of `ws`.
pub open spec fn scan_pairs(ws: Seq<Seq<char>>, n: nat) -> (int, int)
    decreases n,
{
    if n == 0 {
        (-1, 1)
    } else {
        pair_step(
            scan_pairs(ws, (n - 1) as nat),
            ws[2 * (n - 1)],
            ws[2 * (n - 1) + 1],
        )
    }
}

/// Every "model" key among the first `n` pairs has a value whose digits parse.
pub open spec fn pairs_ok(ws: Seq<Seq<char>>, n: nat) -> bool {
    forall|m: int|
        0 <= m < n && contains(#[trigger] ws[2 * m], model_word()) ==> model_number_ok(
            ws[2 * m + 1],
        )
}

/// The words between the `i`-th '{' and the `i`-th '}' of `s`.
pub open spec fn entity_words(s: Seq<char>, i: int) -> Seq<Seq<char>> {
    words(s.subrange(positions(s, '{')[i] + 1, positions(s, '}')[i]))
}

/// (model number, collide flag) of the `i`-th entity of `s`.
pub open spec fn entity_scan(s: Seq<char>, i: int) -> (int, int) {
    scan_pairs(entity_words(s, i), entity_words(s, i).len() / 2)
}

/// The `i`-th entity of `s` can be scanned: its '}' comes after its '{', and
/// each of its model numbers parses.
pub open spec fn entity_ok(s: Seq<char>, i: int) -> bool {
    &&& positions(s, '{')[i] < positions(s, '}')[i]
    &&& pairs_ok(entity_words(s, i), entity_words(s, i).len() / 2)
}

/// The entity list `s` can be scanned without failing: every '{' has a
/// matching '}' (by count) and every entity can be scanned.
pub open spec fn entities_ok(s: Seq<char>) -> bool {
    &&& positions(s, '{').len() <= positions(s, '}').len()
    &&& forall|i: int| 0 <= i < positions(s, '{').len() ==> #[trigger] entity_ok(s, i)
}

/// The number of entities: the number of '{' in `s`.
pub open spec fn entity_count(s: Seq<char>) -> nat {
    positions(s, '{').len()
}

/// What the scan records of the `i`-th entity.
pub open spec fn entity_of(s: Seq<char>, i: int) -> EntityInfo {
    EntityInfo {
        type_e: entity_scan(s, i).0 as i32,
        render_debug: -1i32,
        collide: entity_scan(s, i).1 as i32,
    }
}

/// The entity records of `s`.
pub open spec fn spec_entity_info(s: Seq<char>) -> Seq<EntityInfo> {
    Seq::new(entity_count(s), |i: int| entity_of(s, i))
}

/// The `i`-th entity blocks the player and names a model.
pub open spec fn collides(s: Seq<char>, i: int) -> bool {
    entity_scan(s, i).1 != -1 && entity_scan(s, i).0 != -1
}

/// The collidable models after the first `n` entities: the world (model 0)
/// first, then the model of each entity that blocks the player and names a
/// model.
pub open spec fn spec_collidable(s: Seq<char>, n: nat) -> Seq<i32>
    decreases n,
{
    if n == 0 {
        seq![0i32]
    } else if collides(s, n - 1) {
        spec_collidable(s, (n - 1) as nat).push(entity_scan(s, n - 1).0 as i32)
    } else {
        spec_collidable(s, (n - 1) as nat)
    }
}

// ---------------------------------------------------------------------------
// Lemmas

proof fn lemma_positions_bounds(s: Seq<char>, c: char)
    ensures
        forall|k: int|
            0 <= k < positions(s, c).len() ==> 0 <= #[trigger] positions(s, c)[k] < s.len(),
    decreases s.len(),
{
    if s.len() > 0 {
        lemma_positions_bounds(s.drop_last(), c);
        let p = positions(s.drop_last(), c);
        assert forall|k: int| 0 <= k < positions(s, c).len() implies 0 <= #[trigger] positions(
            s,
            c,
        )[k] < s.len() by {
            if k < p.len() {
                assert(positions(s, c)[k] == p[k]);
            }
        }
    }
}

proof fn lemma_numeric_len(w: Seq<char>)
    ensures
        numeric_chars(w).len() <= w.len(),
    decreases w.len(),
{
    if w.len() > 0 {
        lemma_numeric_len(w.drop_last());
    }
}

proof fn lemma_numeric_concat(a: Seq<char>, b: Seq<char>)
    ensures
        numeric_chars(a + b) == numeric_chars(a) + numeric_chars(b),
    decreases b.len(),
{
    if b.len() == 0 {
        assert(a + b =~= a);
        assert(numeric_chars(a) + numeric_chars(b) =~= numeric_chars(a));
    } else {
        lemma_numeric_concat(a, b.drop_last());
        assert((a + b).drop_last() =~= a + b.drop_last());
        assert((a + b).last() == b.last());
        if is_numeric_char(b.last()) {
            assert(numeric_chars(a) + numeric_chars(b) =~= (numeric_chars(a) + numeric_chars(
                b.drop_last(),
            )).push(b.last()));
        }
    }
}

proof fn lemma_digits_nonneg(d: Seq<char>)
    requires
        forall|i: int| 0 <= i < d.len() ==> is_digit(#[trigger] d[i]),
    ensures
        digits_value(d) >= 0,
    decreases d.len(),
{
    if d.len() > 0 {
        lemma_digits_nonneg(d.drop_last());
    }
}

proof fn lemma_digits_monotone(a: Seq<char>, b: Seq<char>)
    requires
        forall|i: int| 0 <= i < (a + b).len() ==> is_digit(#[trigger] (a + b)[i]),
    ensures
        digits_value(a) <= digits_value(a + b),
    decreases b.len(),
{
    if b.len() == 0 {
        assert(a + b =~= a);
    } else {
        assert((a + b).drop_last() =~= a + b.drop_last());
        assert forall|i: int| 0 <= i < (a + b.drop_last()).len() implies is_digit(
            #[trigger] (a + b.drop_last())[i],
        ) by {
            assert((a + b.drop_last())[i] == (a + b)[i]);
        }
        lemma_digits_monotone(a, b.drop_last());
        lemma_digits_nonneg(a + b.drop_last());
        assert(is_digit((a + b)[(a + b).len() - 1]));
    }
}

// ---------------------------------------------------------------------------
// Laws

proof fn lemma_collide_flag(ws: Seq<Seq<char>>, n: nat)
    ensures
        scan_pairs(ws, n).1 == 1 || scan_pairs(ws, n).1 == -1,
    decreases n,
{
    if n > 0 {
        lemma_collide_flag(ws, (n - 1) as nat);
    }
}

proof fn lemma_model_range(ws: Seq<Seq<char>>, n: nat)
    requires
        pairs_ok(ws, n),
    ensures
        -1 <= scan_pairs(ws, n).0 <= i32::MAX,
    decreases n,
{
    if n > 0 {
        assert(pairs_ok(ws, (n - 1) as nat));
        lemma_model_range(ws, (n - 1) as nat);
        let m = n - 1;
        if contains(ws[2 * m], model_word()) {
            assert(model_number_ok(ws[2 * m + 1]));
            lemma_digits_nonneg(numeric_chars(ws[2 * m + 1]));
        }
    }
}

/// The entity whose model is entry `k` of the collidable list after `n`
/// entities.
pub open spec fn collidable_source(s: Seq<char>, n: nat, k: int) -> int
    decreases n,
{
    if n == 0 {
        -1
    } else if collides(s, n - 1) && k == spec_collidable(s, (n - 1) as nat).len() {
        n - 1
    } else {
        collidable_source(s, (n - 1) as nat, k)
    }
}

proof fn lemma_collidable_prefix(s: Seq<char>, n: nat)
    ensures
        spec_collidable(s, n).len() >= 1,
        spec_collidable(s, n)[0] == 0,
        forall|k: int|
            1 <= k < spec_collidable(s, n).len() ==> {
                let i = #[trigger] collidable_source(s, n, k);
                &&& 0 <= i < n
                &&& collides(s, i)
                &&& spec_collidable(s, n)[k] == entity_scan(s, i).0 as i32
            },
    decreases n,
{
    if n > 0 {
        lemma_collidable_prefix(s, (n - 1) as nat);
        let prev = spec_collidable(s, (n - 1) as nat);
        assert forall|k: int| 1 <= k < spec_collidable(s, n).len() implies {
            let i = #[trigger] collidable_source(s, n, k);
            &&& 0 <= i < n
            &&& collides(s, i)
            &&& spec_collidable(s, n)[k] == entity_scan(s, i).0 as i32
        } by {
            if collides(s, n - 1) && k == prev.len() {
                assert(collidable_source(s, n, k) == n - 1);
            } else {
                assert(k < prev.len());
                assert(collidable_source(s, n, k) == collidable_source(s, (n - 1) as nat, k));
                assert(spec_collidable(s, n)[k] == prev[k]);
            }
        }
    }
}

/// The collidable list starts with the world (model 0); every later entry
/// is the model of an entity (`collidable_source`) that names a model and is
/// not a trigger; every
/// entity is recorded as blocking (1) or as a trigger (-1), without debug
/// drawing, one record per '{'.
pub proof fn lemma_entity_lists(s: Seq<char>)
    requires
        entities_ok(s),
    ensures
        spec_entity_info(s).len() == positions(s, '{').len(),
        spec_collidable(s, entity_count(s))[0] == 0,
        forall|i: int|
            0 <= i < entity_count(s) ==> (#[trigger] spec_entity_info(s)[i]).render_debug == -1 && (
            spec_entity_info(s)[i].collide == 1 || spec_entity_info(s)[i].collide == -1),
        forall|k: int|
            1 <= k < spec_collidable(s, entity_count(s)).len() ==> {
                let i = #[trigger] collidable_source(s, entity_count(s), k);
                &&& 0 <= i < entity_count(s)
                &&& spec_entity_info(s)[i].collide == 1
                &&& spec_entity_info(s)[i].type_e != -1
                &&& spec_entity_info(s)[i].type_e == spec_collidable(s, entity_count(s))[k]
            },
{
    lemma_collidable_prefix(s, entity_count(s));
    assert forall|i: int| 0 <= i < entity_count(s) implies (
    #[trigger] spec_entity_info(s)[i]).render_debug == -1 && (spec_entity_info(s)[i].collide == 1
        || spec_entity_info(s)[i].collide == -1) by {
        lemma_collide_flag(entity_words(s, i), entity_words(s, i).len() / 2);
    }
    assert forall|k: int| 1 <= k < spec_collidable(s, entity_count(s)).len() implies {
        let i = #[trigger] collidable_source(s, entity_count(s), k);
        &&& 0 <= i < entity_count(s)
        &&& spec_entity_info(s)[i].collide == 1
        &&& spec_entity_info(s)[i].type_e != -1
        &&& spec_entity_info(s)[i].type_e == spec_collidable(s, entity_count(s))[k]
    } by {
        let i = collidable_source(s, entity_count(s), k);
        lemma_collide_flag(entity_words(s, i), entity_words(s, i).len() / 2);
        assert(entity_ok(s, i));
        lemma_model_range(entity_words(s, i), entity_words(s, i).len() / 2);
        assert(spec_entity_info(s)[i] == entity_of(s, i));
    }
}

// ---------------------------------------------------------------------------
// Scanning

/// The indices of `c` in `cs`, in increasing order.
fn find_all(cs: &Vec<char>, c: char) -> (r: Vec<usize>)
    ensures
        r@.len() == positions(cs@, c).len(),
        forall|k: int| 0 <= k < r@.len() ==> r@[k] as int == #[trigger] positions(cs@, c)[k],
{
    let mut r: Vec<usize> = Vec::new();
    let mut i: usize = 0;
    while i < cs.len()
        invariant
            i <= cs@.len(),
            r@.len() == positions(cs@.take(i as int), c).len(),
            forall|k: int|
                0 <= k < r@.len() ==> r@[k] as int == #[trigger] positions(
                    cs@.take(i as int),
                    c,
                )[k],
        decreases cs@.len() - i,
    {
        assert(cs@.take(i + 1).drop_last() =~= cs@.take(i as int));
        assert(cs@.take(i + 1).last() == cs@[i as int]);
        if cs[i] == c {
            r.push(i);
        }
        i = i + 1;
    }
    assert(cs@.take(cs@.len() as int) =~= cs@);
    r
}

/// The model number written in `cs[lo..hi]`, or `None` when its digits do
/// not parse.
fn parse_model_number(cs: &Vec<char>, lo: usize, hi: usize) -> (r: Option<i32>)
    requires
        lo <= hi <= cs.len(),
    ensures
        r is Some <==> model_number_ok(cs@.subrange(lo as int, hi as int)),
        r matches Some(v) ==> v == digits_value(numeric_chars(cs@.subrange(lo as int, hi as int))),
{
    let ghost full = cs@.subrange(lo as int, hi as int);
    let mut acc: i64 = 0;
    let mut count: usize = 0;
    let mut i: usize = lo;
    while i < hi
        invariant
            lo <= i <= hi <= cs.len(),
            full == cs@.subrange(lo as int, hi as int),
            count == numeric_chars(cs@.subrange(lo as int, i as int)).len(),
            forall|k: int|
                0 <= k < count ==> is_digit(
                    #[trigger] numeric_chars(cs@.subrange(lo as int, i as int))[k],
                ),
            acc == digits_value(numeric_chars(cs@.subrange(lo as int, i as int))),
            0 <= acc <= i32::MAX,
            count <= i - lo,
        decreases hi - i,
    {
        let ghost pre = cs@.subrange(lo as int, i as int);
        let ghost next = cs@.subrange(lo as int, i + 1);
        assert(next.drop_last() =~= pre);
        assert(next.last() == cs@[i as int]);
        proof {
            assert(full =~= next + cs@.subrange(i + 1, hi as int));
            lemma_numeric_concat(next, cs@.subrange(i + 1, hi as int));
            lemma_numeric_len(pre);
        }
        let c = cs[i];
        if char_is_numeric(c) {
            let u = c as u32;
            if u < 48 || u > 57 {
                assert(numeric_chars(full)[count as int] == c);
                return None;
            }
            let v = acc * 10 + (u - 48) as i64;
            assert(numeric_chars(next) == numeric_chars(pre).push(c));
            assert(numeric_chars(next).drop_last() =~= numeric_chars(pre));
            if v > i32::MAX as i64 {
                proof {
                    let na = numeric_chars(next);
                    let nb = numeric_chars(cs@.subrange(i + 1, hi as int));
                    assert(na == numeric_chars(pre).push(c));
                    assert(na.drop_last() =~= numeric_chars(pre));
                    assert(digits_value(na) == v);
                    if model_number_ok(full) {
                        assert(numeric_chars(full) == na + nb);
                        lemma_digits_monotone(na, nb);
                        assert(false);
                    }
                }
                return None;
            }
            acc = v;
            count = count + 1;
            assert forall|k: int| 0 <= k < count implies is_digit(
                #[trigger] numeric_chars(next)[k],
            ) by {
                if k < count - 1 {
                    assert(numeric_chars(next)[k] == numeric_chars(pre)[k]);
                }
            }
        }
        i = i + 1;
    }
    if count == 0 {
        return None;
    }
    Some(acc as i32)
}

/// (model number, collide flag) of the entity whose words lie at `ws` in
/// `cs`, or `None` when a model number does not parse.
fn scan_entity_pairs(
    cs: &Vec<char>,
    ws: &Vec<(usize, usize)>,
    Ghost(wd): Ghost<Seq<Seq<char>>>,
) -> (r: Option<(i32, i32)>)
    requires
        ws@.len() == wd.len(),
        forall|k: int|
            0 <= k < ws@.len() ==> {
                &&& (#[trigger] ws@[k]).0 <= ws@[k].1 <= cs.len()
                &&& cs@.subrange(ws@[k].0 as int, ws@[k].1 as int) == wd[k]
            },
    ensures
        r is Some <==> pairs_ok(wd, wd.len() / 2),
        r matches Some(p) ==> p.0 as int == scan_pairs(wd, wd.len() / 2).0 && p.1 as int
            == scan_pairs(wd, wd.len() / 2).1,
{
    let trig: Vec<char> = vec!['t', 'r', 'i', 'g', 'g', 'e', 'r'];
    let modl: Vec<char> = vec!['m', 'o', 'd', 'e', 'l'];
    assert(trig@ =~= trigger_word());
    assert(modl@ =~= model_word());
    let len = ws.len();
    let npairs = len / 2;
    let mut model: i32 = -1;
    let mut collide: i32 = 1;
    let mut m: usize = 0;
    while m < npairs
        invariant
            npairs == wd.len() / 2,
            ws@.len() == wd.len(),
            len == ws@.len(),
            forall|k: int|
                0 <= k < ws@.len() ==> {
                    &&& (#[trigger] ws@[k]).0 <= ws@[k].1 <= cs.len()
                    &&& cs@.subrange(ws@[k].0 as int, ws@[k].1 as int) == wd[k]
                },
            trig@ == trigger_word(),
            modl@ == model_word(),
            m <= npairs,
            pairs_ok(wd, m as nat),
            model as int == scan_pairs(wd, m as nat).0,
            collide as int == scan_pairs(wd, m as nat).1,
        decreases npairs - m,
    {
        let (ka, kb) = ws[2 * m];
        let (va, vb) = ws[2 * m + 1];
        let ghost key = wd[2 * m];
        let ghost value = wd[2 * m + 1];
        assert(cs@.subrange(ka as int, kb as int) == key);
        assert(cs@.subrange(va as int, vb as int) == value);
        if contains_in(cs, va, vb, &trig) {
            collide = -1;
        }
        if contains_in(cs, ka, kb, &modl) {
            match parse_model_number(cs, va, vb) {
                Some(v) => {
                    model = v;
                },
                None => {
                    assert(!pairs_ok(wd, (wd.len() / 2) as nat)) by {
                        assert(contains(wd[2 * (m as int)], model_word()));
                    }
                    return None;
                },
            }
        }
        m = m + 1;
        assert(pairs_ok(wd, m as nat)) by {
            assert forall|j: int|
                0 <= j < m && contains(#[trigger] wd[2 * j], model_word()) implies model_number_ok(
                wd[2 * j + 1],
            ) by {
                if j < m - 1 {
                } else {
                    assert(j == m - 1);
                }
            }
        }
    }
    Some((model, collide))
}

/// Scans the entity list `cs`; `None` exactly when the scan would fail.
fn scan_entities(cs: &Vec<char>) -> (r: Option<(Vec<EntityInfo>, Vec<i32>)>)
    ensures
        r is Some <==> entities_ok(cs@),
        r matches Some(p) ==> {
            &&& p.0@ == spec_entity_info(cs@)
            &&& p.1@ == spec_collidable(cs@, entity_count(cs@))
        },
{
    let starts = find_all(cs, '{');
    let ends = find_all(cs, '}');
    proof {
        lemma_positions_bounds(cs@, '{');
        lemma_positions_bounds(cs@, '}');
    }
    if ends.len() < starts.len() {
        return None;
    }
    let mut entity_info: Vec<EntityInfo> = Vec::new();
    let mut collidable: Vec<i32> = Vec::new();
    collidable.push(0);
    assert(collidable@ =~= spec_collidable(cs@, 0));
    let mut i: usize = 0;
    while i < starts.len()
        invariant
            starts@.len() == positions(cs@, '{').len(),
            ends@.len() == positions(cs@, '}').len(),
            starts@.len() <= ends@.len(),
            forall|k: int|
                0 <= k < starts@.len() ==> starts@[k] as int == #[trigger] positions(cs@, '{')[k],
            forall|k: int|
                0 <= k < ends@.len() ==> ends@[k] as int == #[trigger] positions(cs@, '}')[k],
            forall|k: int|
                0 <= k < positions(cs@, '{').len() ==> 0 <= #[trigger] positions(cs@, '{')[k]
                    < cs@.len(),
            forall|k: int|
                0 <= k < positions(cs@, '}').len() ==> 0 <= #[trigger] positions(cs@, '}')[k]
                    < cs@.len(),
            i <= starts@.len(),
            forall|k: int| 0 <= k < i ==> #[trigger] entity_ok(cs@, k),
            entity_info@ =~= spec_entity_info(cs@).take(i as int),
            collidable@ == spec_collidable(cs@, i as nat),
        decreases starts@.len() - i,
    {
        let a = starts[i];
        let b = ends[i];
        assert(a as int == positions(cs@, '{')[i as int]);
        assert(b as int == positions(cs@, '}')[i as int]);
        if b <= a {
            assert(!entity_ok(cs@, i as int));
            return None;
        }
        let ws = split_words(cs, a + 1, b);
        let ghost wd = entity_words(cs@, i as int);
        match scan_entity_pairs(cs, &ws, Ghost(wd)) {
            None => {
                assert(!entity_ok(cs@, i as int));
                return None;
            },
            Some((model, collide)) => {
                assert(entity_ok(cs@, i as int));
                if collide != -1 && model != -1 {
                    collidable.push(model);
                }
                entity_info.push(EntityInfo { type_e: model, render_debug: -1, collide });
                i = i + 1;
            },
        }
    }
    assert(entity_info@ =~= spec_entity_info(cs@));
    Some((entity_info, collidable))
}

/// Scans the entity list of a level.
///
/// Returns one record per entity (per '{'), and the list of collidable
/// models: model 0 (the world) first, then the model of every entity that
/// names a model and is not a trigger, in entity order.
pub fn extract_entities(entities: &str) -> (r: (Vec<EntityInfo>, Vec<i32>))
    requires
        entities_ok(entities@),
    ensures
        r.0@ == spec_entity_info(entities@),
        r.1@ == spec_collidable(entities@, entity_count(entities@)),
{
    let cs = chars_of(entities);
    match scan_entities(&cs) {
        Some(p) => p,
        None => {
            assert(false);
            (Vec::new(), Vec::new())
        },
    }
}

/// Whether `extract_entities` can scan `entities` without failing.
pub fn entities_scannable(entities: &str) -> (r: bool)
    ensures
        r == entities_ok(entities@),
{
    let cs = chars_of(entities);
    scan_entities(&cs).is_some()
}

/// Scans the entity list of a level, or answers `None` when the scan would
/// fail (an entity without its '}', or a model number that does not parse).
pub fn try_extract_entities(entities: &str) -> (r: Option<(Vec<EntityInfo>, Vec<i32>)>)
    ensures
        r is Some <==> entities_ok(entities@),
        r matches Some(p) ==> {
            &&& p.0@ == spec_entity_info(entities@)
            &&& p.1@ == spec_collidable(entities@, entity_count(entities@))
        },
{
    if entities_scannable(entities) {
        Some(extract_entities(entities))
    } else {
        None
    }
}

// ---------------------------------------------------------------------------
// The meaning of a model number

/// The value of the digits `d[0..k]` read as the leading part of the
/// numeral `d`: the digit at index `i` counts `10^(d.len() - 1 - i)`.
pub open spec fn place_sum(d: Seq<char>, k: int) -> int
    decreases k,
{
    if k <= 0 {
        0
    } else {
        place_sum(d, k - 1) + ((d[k - 1] as u32) - 48) * vstd::arithmetic::power::pow(
            10,
            (d.len() - k) as nat,
        )
    }
}

proof fn lemma_place_sum_shift(d: Seq<char>, k: int)
    requires
        d.len() >= 1,
        0 <= k <= d.len() - 1,
    ensures
        place_sum(d, k) == 10 * place_sum(d.drop_last(), k),
    decreases k,
{
    if k > 0 {
        lemma_place_sum_shift(d, k - 1);
        let e = (d.len() - k) as nat;
        assert(e >= 1);
        reveal(vstd::arithmetic::power::pow);
        let p1 = vstd::arithmetic::power::pow(10, (e - 1) as nat);
        assert(vstd::arithmetic::power::pow(10, e) == 10 * p1);
        assert(d.drop_last().len() - k == e - 1);
        assert(d.drop_last()[k - 1] == d[k - 1]);
        let g = (d[k - 1] as u32) - 48;
        assert(g * (10 * p1) == 10 * (g * p1)) by (nonlinear_arith);
    }
}

/// A decimal numeral's value is the sum of its digits times powers of ten,
/// the last digit counting ones.
pub proof fn lemma_digits_place_value(d: Seq<char>)
    ensures
        digits_value(d) == place_sum(d, d.len() as int),
    decreases d.len(),
{
    if d.len() > 0 {
        lemma_digits_place_value(d.drop_last());
        lemma_place_sum_shift(d, d.len() - 1);
        reveal(vstd::arithmetic::power::pow);
        assert(vstd::arithmetic::power::pow(10, 0) == 1);
        assert(d[d.len() - 1] == d.last());
    }
}

/// The model number and the collide flag after `n` key/value pairs: the
/// number is -1 until a key containing "model" occurs, and then the value
/// of all the digits of the last such key's value (each digit weighted by
/// its power of ten); the entity is a trigger (-1) exactly when some value
/// contains "trigger", and blocks (1) otherwise.
pub proof fn lemma_scan_meaning(ws: Seq<Seq<char>>, n: nat)
    ensures
        (forall|m: int| 0 <= m < n ==> !contains(#[trigger] ws[2 * m], seq!['m', 'o', 'd', 'e', 'l']))
            ==> scan_pairs(ws, n).0 == -1,
        forall|m: int|
            0 <= m < n && contains(#[trigger] ws[2 * m], seq!['m', 'o', 'd', 'e', 'l']) && (forall|
                m2: int,
            |
                m < m2 < n ==> !contains(#[trigger] ws[2 * m2], seq!['m', 'o', 'd', 'e', 'l']))
                ==> scan_pairs(ws, n).0 == place_sum(
                numeric_chars(ws[2 * m + 1]),
                numeric_chars(ws[2 * m + 1]).len() as int,
            ),
        scan_pairs(ws, n).1 == (if exists|m: int|
            0 <= m < n && contains(#[trigger] ws[2 * m + 1], seq!['t', 'r', 'i', 'g', 'g', 'e', 'r'])
        {
            -1int
        } else {
            1int
        }),
    decreases n,
{
    assert(model_word() =~= seq!['m', 'o', 'd', 'e', 'l']);
    assert(trigger_word() =~= seq!['t', 'r', 'i', 'g', 'g', 'e', 'r']);
    if n > 0 {
        let k = n - 1;
        lemma_scan_meaning(ws, k as nat);
        let v = ws[2 * k + 1];
        lemma_digits_place_value(numeric_chars(v));
        assert forall|m: int|
            0 <= m < n && contains(#[trigger] ws[2 * m], seq!['m', 'o', 'd', 'e', 'l']) && (forall|
                m2: int,
            |
                m < m2 < n ==> !contains(#[trigger] ws[2 * m2], seq!['m', 'o', 'd', 'e', 'l']))
                implies scan_pairs(ws, n).0 == place_sum(
            numeric_chars(ws[2 * m + 1]),
            numeric_chars(ws[2 * m + 1]).len() as int,
        ) by {
            if m < k {
                assert(!contains(ws[2 * k], seq!['m', 'o', 'd', 'e', 'l']));
                assert forall|m2: int| m < m2 < k implies !contains(
                    #[trigger] ws[2 * m2],
                    seq!['m', 'o', 'd', 'e', 'l'],
                ) by {}
            }
        }
        if (forall|m: int| 0 <= m < n ==> !contains(#[trigger] ws[2 * m], seq!['m', 'o', 'd', 'e', 'l'])) {
            assert(!contains(ws[2 * k], seq!['m', 'o', 'd', 'e', 'l']));
            assert forall|m: int| 0 <= m < k implies !contains(
                #[trigger] ws[2 * m],
                seq!['m', 'o', 'd', 'e', 'l'],
            ) by {}
        }
        if contains(v, seq!['t', 'r', 'i', 'g', 'g', 'e', 'r']) {
            assert(exists|m: int|
                0 <= m < n && contains(#[trigger] ws[2 * m + 1], seq!['t', 'r', 'i', 'g', 'g', 'e', 'r']))
                by {
                assert(contains(ws[2 * k + 1], seq!['t', 'r', 'i', 'g', 'g', 'e', 'r']));
            }
        } else {
            if exists|m: int|
                0 <= m < n && contains(#[trigger] ws[2 * m + 1], seq!['t', 'r', 'i', 'g', 'g', 'e', 'r'])
            {
                let m = choose|m: int|
                    0 <= m < n && contains(
                        #[trigger] ws[2 * m + 1],
                        seq!['t', 'r', 'i', 'g', 'g', 'e', 'r'],
                    );
                assert(m < k);
            }
        }
    }
}

proof fn lemma_collidable_holds(s: Seq<char>, n: nat, i: int)
    requires
        0 <= i < n,
        collides(s, i),
    ensures
        exists|k: int|
            1 <= k < spec_collidable(s, n).len() && #[trigger] spec_collidable(s, n)[k]
                == entity_scan(s, i).0 as i32,
    decreases n,
{
    if i < n - 1 {
        lemma_collidable_holds(s, (n - 1) as nat, i);
        let prev = spec_collidable(s, (n - 1) as nat);
        let k = choose|k: int| 1 <= k < prev.len() && #[trigger] prev[k] == entity_scan(s, i).0 as i32;
        assert(spec_collidable(s, n)[k] == prev[k]);
    } else {
        let prev = spec_collidable(s, (n - 1) as nat);
        lemma_collidable_prefix(s, (n - 1) as nat);
        assert(spec_collidable(s, n)[prev.len() as int] == entity_scan(s, i).0 as i32);
    }
}

/// What `extract_entities` records of entity `i` (between its '{' and
/// '}'), read as key/value word pairs: its model number is -1 when no key
/// contains "model", else the decimal value of all the digits of the value
/// of the last such key; it is a trigger (-1) exactly when a value contains
/// "trigger", else it blocks (1); and a blocking entity with a model number
/// has that model in the collidable list.
pub proof fn lemma_entity_model_number(s: Seq<char>, i: int)
    requires
        entities_ok(s),
        0 <= i < entity_count(s),
    ensures
        ({
            let ws = entity_words(s, i);
            let n = ws.len() / 2;
            let e = spec_entity_info(s)[i];
            &&& (forall|m: int|
                0 <= m < n ==> !contains(#[trigger] ws[2 * m], seq!['m', 'o', 'd', 'e', 'l']))
                ==> e.type_e == -1
            &&& forall|m: int|
                0 <= m < n && contains(#[trigger] ws[2 * m], seq!['m', 'o', 'd', 'e', 'l']) && (forall|
                    m2: int,
                |
                    m < m2 < n ==> !contains(#[trigger] ws[2 * m2], seq!['m', 'o', 'd', 'e', 'l']))
                    ==> e.type_e as int == place_sum(
                    numeric_chars(ws[2 * m + 1]),
                    numeric_chars(ws[2 * m + 1]).len() as int,
                )
            &&& (e.collide == -1) == (exists|m: int|
                0 <= m < n && contains(
                    #[trigger] ws[2 * m + 1],
                    seq!['t', 'r', 'i', 'g', 'g', 'e', 'r'],
                ))
            &&& (e.collide == 1 && e.type_e != -1) ==> exists|k: int|
                1 <= k < spec_collidable(s, entity_count(s)).len() && #[trigger] spec_collidable(
                    s,
                    entity_count(s),
                )[k] == e.type_e
        }),
{
    let ws = entity_words(s, i);
    let n = ws.len() / 2;
    assert(entity_ok(s, i));
    lemma_scan_meaning(ws, n as nat);
    lemma_model_range(ws, n as nat);
    lemma_collide_flag(ws, n as nat);
    assert(spec_entity_info(s)[i] == entity_of(s, i));
    if entity_of(s, i).collide == 1 && entity_of(s, i).type_e != -1 {
        lemma_collidable_holds(s, entity_count(s), i);
    }
}

} // verus!
