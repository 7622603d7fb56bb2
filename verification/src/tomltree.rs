//! TOML documents as trees of tables, and the layering of one document over another.
use vstd::prelude::*;

verus! {

/// A TOML value (`toml::Value`) that is not a table: carried through unchanged.
#[verifier::external_type_specification]
#[verifier::external_body]
pub struct ExTomlValue(toml::Value);

/// A TOML document: a table of named entries, or a value that is not a table.
#[derive(Debug)]
pub enum TomlNode {
    Table(Vec<TomlEntry>),
    Leaf(toml::Value),
}

/// One named entry of a table.
#[derive(Debug)]
pub struct TomlEntry {
    pub key: String,
    pub value: TomlNode,
}

/// The first position of key `k` among `es`.
pub open spec fn key_index(es: Seq<TomlEntry>, k: Seq<char>) -> Option<int>
    decreases es.len(),
{
    if es.len() == 0 {
        None
    } else {
        match key_index(es.drop_last(), k) {
            Some(i) => Some(i),
            None => if es.last().key@ == k {
                Some(es.len() - 1)
            } else {
                None
            },
        }
    }
}

/// No key occurs twice among `es`.
pub open spec fn keys_distinct(es: Seq<TomlEntry>) -> bool {
    forall|i: int, j: int|
        0 <= i < j < es.len() ==> (#[trigger] es[i]).key@ != (#[trigger] es[j]).key@
}

/// Every table in the tree has distinct keys.
pub open spec fn well_formed(n: TomlNode) -> bool
    decreases n,
{
    match n {
        TomlNode::Leaf(_) => true,
        TomlNode::Table(es) => keys_distinct(es@) && entries_well_formed(es@, es@.len() as int),
    }
}

pub open spec fn entries_well_formed(es: Seq<TomlEntry>, i: int) -> bool
    decreases es, i,
{
    if i <= 0 || i > es.len() {
        true
    } else {
        entries_well_formed(es, i - 1) && well_formed(es[i - 1].value)
    }
}

/// How deep tables nest in the tree.
pub open spec fn depth(n: TomlNode) -> nat
    decreases n,
{
    match n {
        TomlNode::Leaf(_) => 0,
        TomlNode::Table(es) => 1 + entries_depth(es@, es@.len() as int),
    }
}

pub open spec fn entries_depth(es: Seq<TomlEntry>, i: int) -> nat
    decreases es, i,
{
    if i <= 0 || i > es.len() {
        0
    } else {
        let d = depth(es[i - 1].value);
        let rest = entries_depth(es, i - 1);
        if d > rest {
            d
        } else {
            rest
        }
    }
}

/// `r` is `b` laid over `a`: where both are tables, `r` is their tables laid
/// one over the other; otherwise `r` is `b`.
pub open spec fn laid_over(a: TomlNode, b: TomlNode, r: TomlNode) -> bool
    decreases depth(a), 1int,
{
    match (a, b) {
        (TomlNode::Table(ae), TomlNode::Table(be)) => r matches TomlNode::Table(re)
            && tables_laid_over(ae@, be@, re@),
        _ => r == b,
    }
}

/// `re` is the entries `be` laid over the entries `ae`: it has the keys of both,
/// each once; an entry whose key both have is laid over recursively, and one
/// that only one of them has is kept as it is.
pub open spec fn tables_laid_over(ae: Seq<TomlEntry>, be: Seq<TomlEntry>, re: Seq<TomlEntry>) -> bool
    decreases entries_depth(ae, ae.len() as int) + 1, 0int,
{
    &&& keys_distinct(re)
    &&& forall|k: Seq<char>|
        #![trigger key_index(re, k)]
        key_index(re, k) is Some <==> (key_index(ae, k) is Some || key_index(be, k) is Some)
    &&& forall|i: int|
        0 <= i < re.len() ==> {
            let e = #[trigger] re[i];
            match (key_index(ae, e.key@), key_index(be, e.key@)) {
                (Some(x), Some(y)) => 0 <= x < ae.len() && 0 <= y < be.len() && {
                    proof {
                        lemma_entries_depth_bound(ae, ae.len() as int, x);
                    }
                    e.key@ == ae[x].key@ && laid_over(ae[x].value, be[y].value, e.value)
                },
                (Some(x), None) => 0 <= x < ae.len() && e == ae[x],
                (None, Some(y)) => 0 <= y < be.len() && e == be[y],
                (None, None) => false,
            }
        }
}

pub proof fn lemma_entries_depth_bound(es: Seq<TomlEntry>, n: int, x: int)
    requires
        0 <= x < n <= es.len(),
    ensures
        depth(es[x].value) <= entries_depth(es, n),
    decreases n,
{
    if x < n - 1 {
        lemma_entries_depth_bound(es, n - 1, x);
    }
}

proof fn lemma_key_index_found(es: Seq<TomlEntry>, k: Seq<char>)
    ensures
        key_index(es, k) matches Some(i) ==> 0 <= i < es.len() && es[i].key@ == k,
        key_index(es, k) is None <==> forall|j: int| 0 <= j < es.len() ==> (#[trigger] es[j]).key@ != k,
    decreases es.len(),
{
    if es.len() > 0 {
        lemma_key_index_found(es.drop_last(), k);
        if key_index(es, k) is None {
            assert forall|j: int| 0 <= j < es.len() implies (#[trigger] es[j]).key@ != k by {
                if j < es.len() - 1 {
                    assert(es.drop_last()[j] == es[j]);
                }
            }
        } else {
            if key_index(es.drop_last(), k) is Some {
                let i = key_index(es.drop_last(), k)->0;
                assert(es.drop_last()[i] == es[i]);
            }
        }
    }
}

proof fn lemma_key_index_distinct(es: Seq<TomlEntry>, i: int)
    requires
        keys_distinct(es),
        0 <= i < es.len(),
    ensures
        key_index(es, es[i].key@) == Some(i),
{
    let k = es[i].key@;
    lemma_key_index_found(es, k);
    match key_index(es, k) {
        Some(j) => {
            if j != i {
                if j < i {
                    assert(es[j].key@ != es[i].key@);
                } else {
                    assert(es[i].key@ != es[j].key@);
                }
            }
        },
        None => {
            assert(es[i].key@ != k);
        },
    }
}

proof fn lemma_key_index_push(es: Seq<TomlEntry>, e: TomlEntry, k: Seq<char>)
    ensures
        key_index(es.push(e), k) == (if key_index(es, k) is Some {
            key_index(es, k)
        } else if e.key@ == k {
            Some(es.len() as int)
        } else {
            None
        }),
{
    assert(es.push(e).drop_last() =~= es);
}

proof fn lemma_key_index_same_keys(s1: Seq<TomlEntry>, s2: Seq<TomlEntry>, k: Seq<char>)
    requires
        s1.len() == s2.len(),
        forall|j: int| 0 <= j < s1.len() ==> (#[trigger] s1[j]).key@ == s2[j].key@,
    ensures
        key_index(s1, k) == key_index(s2, k),
    decreases s1.len(),
{
    if s1.len() > 0 {
        assert forall|j: int| 0 <= j < s1.len() - 1 implies (#[trigger] s1.drop_last()[j]).key@
            == s2.drop_last()[j].key@ by {
            assert(s1.drop_last()[j] == s1[j]);
            assert(s2.drop_last()[j] == s2[j]);
        }
        lemma_key_index_same_keys(s1.drop_last(), s2.drop_last(), k);
    }
}

proof fn lemma_entries_well_formed(es: Seq<TomlEntry>, n: int)
    requires
        0 <= n <= es.len(),
    ensures
        entries_well_formed(es, n) <==> forall|j: int| 0 <= j < n ==> well_formed(#[trigger] es[j].value),
    decreases n,
{
    if n > 0 {
        lemma_entries_well_formed(es, n - 1);
    }
}

proof fn lemma_entries_depth_lt(es: Seq<TomlEntry>, x: int)
    requires
        0 <= x < es.len(),
    ensures
        depth(es[x].value) < entries_depth(es, es.len() as int) + 1,
{
    lemma_entries_depth_bound(es, es.len() as int, x);
}

/// The position of `key` among `es`, as `key_index` gives it.
fn find_key(es: &Vec<TomlEntry>, key: &String) -> (r: Option<usize>)
    ensures
        match r {
            Some(i) => key_index(es@, key@) == Some(i as int),
            None => key_index(es@, key@) is None,
        },
{
    let mut i: usize = 0;
    while i < es.len()
        invariant
            i <= es.len(),
            key_index(es@.take(i as int), key@) is None,
        decreases es.len() - i,
    {
        proof {
            assert(es@.take(i + 1).drop_last() =~= es@.take(i as int));
            assert(es@.take(i + 1).last() == es@[i as int]);
        }
        if es[i].key == *key {
            proof {
                lemma_key_index_found(es@.take(i as int), key@);
                lemma_key_index_prefix(es@, i + 1, key@);
            }
            return Some(i);
        }
        i = i + 1;
    }
    proof {
        assert(es@.take(es.len() as int) =~= es@);
    }
    None
}

proof fn lemma_key_index_prefix(es: Seq<TomlEntry>, n: int, k: Seq<char>)
    requires
        0 <= n <= es.len(),
        key_index(es.take(n), k) is Some,
    ensures
        key_index(es, k) == key_index(es.take(n), k),
    decreases es.len() - n,
{
    if n < es.len() {
        assert(es.take(n + 1).drop_last() =~= es.take(n));
        lemma_key_index_prefix(es, n + 1, k);
    } else {
        assert(es.take(n) =~= es);
    }
}

/// Lays the document `b` over `a`, as the layered configuration does with each
/// later source: tables are merged key by key, recursively, and anything else in
/// `b` replaces what `a` held.
pub fn merge_toml(a: &mut TomlNode, b: TomlNode)
    requires
        well_formed(*old(a)),
        well_formed(b),
    ensures
        well_formed(*final(a)),
        laid_over(*old(a), b, *final(a)),
    decreases depth(*old(a)), 1int,
{
    match b {
        TomlNode::Table(bt) => {
            let mut taken = TomlNode::Table(Vec::new());
            std::mem::swap(a, &mut taken);
            match taken {
                TomlNode::Table(at) => {
                    proof {
                        lemma_entries_well_formed(at@, at@.len() as int);
                        lemma_entries_well_formed(bt@, bt@.len() as int);
                    }
                    let merged = merge_tables(at, bt);
                    proof {
                        lemma_entries_well_formed(merged@, merged@.len() as int);
                    }
                    *a = TomlNode::Table(merged);
                },
                TomlNode::Leaf(v) => {
                    *a = TomlNode::Table(bt);
                },
            }
        },
        TomlNode::Leaf(v) => {
            *a = TomlNode::Leaf(v);
        },
    }
}

fn merge_tables(at: Vec<TomlEntry>, bt: Vec<TomlEntry>) -> (r: Vec<TomlEntry>)
    requires
        keys_distinct(at@),
        keys_distinct(bt@),
        forall|j: int| 0 <= j < at@.len() ==> well_formed(#[trigger] at@[j].value),
        forall|j: int| 0 <= j < bt@.len() ==> well_formed(#[trigger] bt@[j].value),
    ensures
        tables_laid_over(at@, bt@, r@),
        forall|j: int| 0 <= j < r@.len() ==> well_formed(#[trigger] r@[j].value),
    decreases entries_depth(at@, at@.len() as int) + 1, 0int,
{
    let ghost ae = at@;
    let ghost be = bt@;
    let mut bs = bt;
    let mut rest: Vec<TomlEntry> = Vec::new();
    while bs.len() > 0
        invariant
            rest@.len() + bs@.len() == be.len(),
            bs@ == be.take(bs@.len() as int),
            forall|j: int| 0 <= j < rest@.len() ==> #[trigger] rest@[j] == be[be.len() - 1 - j],
        decreases bs.len(),
    {
        let ghost n = bs@.len();
        let x = bs.pop().unwrap();
        proof {
            assert(bs@ =~= be.take(n - 1));
        }
        rest.push(x);
    }
    let mut cur = at;
    let ghost mut done: int = 0;
    proof {
        assert(be.take(0) =~= Seq::<TomlEntry>::empty());
        assert forall|k: Seq<char>| #![trigger key_index(cur@, k)]
            key_index(cur@, k) is Some <==> (key_index(ae, k) is Some || key_index(be.take(0), k) is Some) by {
        }
        assert forall|i: int| 0 <= i < cur@.len() implies
            match (key_index(ae, (#[trigger] cur@[i]).key@), key_index(be.take(0), cur@[i].key@)) {
                (Some(x), Some(y)) => false,
                (Some(x), None) => 0 <= x < ae.len() && cur@[i] == ae[x],
                _ => false,
            } by {
            lemma_key_index_distinct(ae, i);
        }
    }
    while rest.len() > 0
        invariant
            0 <= done <= be.len(),
            ae == at@,
            rest@.len() == be.len() - done,
            forall|j: int| 0 <= j < rest@.len() ==> #[trigger] rest@[j] == be[be.len() - 1 - j],
            keys_distinct(ae),
            keys_distinct(be),
            forall|j: int| 0 <= j < ae.len() ==> well_formed(#[trigger] ae[j].value),
            forall|j: int| 0 <= j < be.len() ==> well_formed(#[trigger] be[j].value),
            forall|j: int| 0 <= j < cur@.len() ==> well_formed(#[trigger] cur@[j].value),
            tables_laid_over(ae, be.take(done), cur@),
        decreases rest.len(),
    {
        let e = rest.pop().unwrap();
        let ghost p = be.take(done);
        let ghost k = e.key@;
        proof {
            assert(e == be[done]);
            assert(be.take(done + 1) =~= p.push(e));
            lemma_key_index_found(p, k);
            assert forall|j: int| 0 <= j < p.len() implies (#[trigger] p[j]).key@ != k by {
                assert(p[j] == be[j]);
                assert(be[j].key@ != be[done].key@);
            }
            lemma_key_index_found(p, k);
        }
        let ghost before = cur@;
        match find_key(&cur, &e.key) {
            Some(i) => {
                proof {
                    lemma_key_index_found(before, k);
                    assert(before[i as int].key@ == k);
                }
                let mut ent = cur.remove(i);
                let ghost x = key_index(ae, k)->0;
                proof {
                    assert(ent == before[i as int]);
                    assert(key_index(p, k) is None);
                    assert(key_index(ae, k) is Some);
                    assert(ent == ae[x]);
                    lemma_entries_depth_lt(ae, x);
                }
                let TomlEntry { key: ekey, value: evalue } = e;
                merge_toml(&mut ent.value, evalue);
                cur.insert(i, ent);
                proof {
                    let np = p.push(be[done]);
                    assert(cur@ =~= before.update(i as int, cur@[i as int]));
                    assert forall|j: int| 0 <= j < cur@.len() implies (#[trigger] cur@[j]).key@
                        == before[j].key@ by {
                    }
                    assert forall|kk: Seq<char>| #![trigger key_index(cur@, kk)]
                        key_index(cur@, kk) == key_index(before, kk) by {
                        lemma_key_index_same_keys(cur@, before, kk);
                    }
                    assert forall|kk: Seq<char>| #![trigger key_index(np, kk)]
                        key_index(np, kk) == (if key_index(p, kk) is Some {
                            key_index(p, kk)
                        } else if k == kk {
                            Some(p.len() as int)
                        } else {
                            None
                        }) by {
                        lemma_key_index_push(p, be[done], kk);
                    }
                    assert(keys_distinct(cur@));
                    assert forall|j: int| 0 <= j < cur@.len() implies {
                        let e2 = #[trigger] cur@[j];
                        match (key_index(ae, e2.key@), key_index(np, e2.key@)) {
                            (Some(x2), Some(y2)) => 0 <= x2 < ae.len() && 0 <= y2 < np.len() && e2.key@
                                == ae[x2].key@ && laid_over(ae[x2].value, np[y2].value, e2.value),
                            (Some(x2), None) => 0 <= x2 < ae.len() && e2 == ae[x2],
                            (None, Some(y2)) => 0 <= y2 < np.len() && e2 == np[y2],
                            (None, None) => false,
                        }
                    } by {
                        if j == i {
                            lemma_key_index_found(ae, k);
                        } else {
                            assert(cur@[j] == before[j]);
                            if before[j].key@ == k {
                                assert(before[j].key@ != before[i as int].key@);
                            }
                        }
                    }
                    assert(tables_laid_over(ae, np, cur@));
                }
            },
            None => {
                proof {
                    lemma_key_index_found(before, k);
                    assert(key_index(ae, k) is None);
                }
                cur.push(e);
                proof {
                    let np = p.push(be[done]);
                    assert forall|kk: Seq<char>| #![trigger key_index(cur@, kk)]
                        key_index(cur@, kk) == (if key_index(before, kk) is Some {
                            key_index(before, kk)
                        } else if k == kk {
                            Some(before.len() as int)
                        } else {
                            None
                        }) by {
                        lemma_key_index_push(before, be[done], kk);
                    }
                    assert forall|kk: Seq<char>| #![trigger key_index(np, kk)]
                        key_index(np, kk) == (if key_index(p, kk) is Some {
                            key_index(p, kk)
                        } else if k == kk {
                            Some(p.len() as int)
                        } else {
                            None
                        }) by {
                        lemma_key_index_push(p, be[done], kk);
                    }
                    assert forall|a1: int, a2: int| 0 <= a1 < a2 < cur@.len() implies
                        (#[trigger] cur@[a1]).key@ != (#[trigger] cur@[a2]).key@ by {
                        if a2 == before.len() {
                            assert(cur@[a1] == before[a1]);
                        } else {
                            assert(cur@[a1] == before[a1]);
                            assert(cur@[a2] == before[a2]);
                        }
                    }
                    assert forall|j: int| 0 <= j < cur@.len() implies {
                        let e2 = #[trigger] cur@[j];
                        match (key_index(ae, e2.key@), key_index(np, e2.key@)) {
                            (Some(x2), Some(y2)) => 0 <= x2 < ae.len() && 0 <= y2 < np.len() && e2.key@
                                == ae[x2].key@ && laid_over(ae[x2].value, np[y2].value, e2.value),
                            (Some(x2), None) => 0 <= x2 < ae.len() && e2 == ae[x2],
                            (None, Some(y2)) => 0 <= y2 < np.len() && e2 == np[y2],
                            (None, None) => false,
                        }
                    } by {
                        if j < before.len() {
                            assert(cur@[j] == before[j]);
                            assert(before[j].key@ != k);
                        }
                    }
                    assert(tables_laid_over(ae, np, cur@));
                }
            },
        }
        proof {
            done = done + 1;
        }
    }
    proof {
        assert(be.take(be.len() as int) =~= be);
    }
    cur
}

/// The entry of the table `n` under key `k`, if it has one.
pub open spec fn entry_at(n: TomlNode, k: Seq<char>) -> Option<TomlEntry> {
    match n {
        TomlNode::Table(es) => match key_index(es@, k) {
            Some(i) => Some(es@[i]),
            None => None,
        },
        TomlNode::Leaf(_) => None,
    }
}

/// Layering a table over a table: a key that only the lower one has keeps its
/// entry, and an entry of the upper one whose value is not a table is taken as
/// it is, over whatever the lower one had under that key.
pub proof fn lemma_later_source_wins(a: TomlNode, b: TomlNode, r: TomlNode, k: Seq<char>)
    requires
        a is Table,
        b is Table,
        laid_over(a, b, r),
    ensures
        entry_at(b, k) is None ==> entry_at(r, k) == entry_at(a, k),
        entry_at(b, k) is Some && entry_at(b, k)->0.value is Leaf ==> entry_at(r, k) is Some
            && entry_at(r, k)->0.value == entry_at(b, k)->0.value,
        entry_at(r, k) is Some <==> (entry_at(a, k) is Some || entry_at(b, k) is Some),
{
    let ae = a->Table_0@;
    let be = b->Table_0@;
    let re = r->Table_0@;
    lemma_key_index_found(ae, k);
    lemma_key_index_found(be, k);
    lemma_key_index_found(re, k);
    assert(key_index(re, k) is Some <==> (key_index(ae, k) is Some || key_index(be, k) is Some));
    if key_index(re, k) is Some {
        let i = key_index(re, k)->0;
        let e = re[i];
        assert(e.key@ == k);
        if let (Some(x), Some(y)) = (key_index(ae, k), key_index(be, k)) {
            if be[y].value is Leaf {
                assert(laid_over(ae[x].value, be[y].value, e.value));
                assert(e.value == be[y].value);
            }
        }
    }
}

// ─── Documents from text ───

/// The TOML document a text holds, as the `toml` crate reads it; `None` when
/// the text is not TOML.
pub uninterp spec fn toml_of_text(s: Seq<char>) -> Option<toml::Value>;

/// `toml::from_str::<toml::Value>(s)`, its error dropped: named `toml_of_text`.
#[verifier::external_body]
pub(crate) fn parse_toml(s: &str) -> (r: Option<toml::Value>)
    ensures
        r == toml_of_text(s@),
{
    toml::from_str::<toml::Value>(s).ok()
}

/// The entries of a TOML table, as its iterator lists them (key and value);
/// `None` for a value that is not a table.
pub uninterp spec fn toml_entries(v: toml::Value) -> Option<Seq<(Seq<char>, toml::Value)>>;

/// `toml::Value::as_table`, its entries listed by the table's iterator: named
/// `toml_entries`.  A table is a map, so no key occurs twice.
#[verifier::external_body]
pub(crate) fn table_entries(v: &toml::Value) -> (r: Option<Vec<(String, toml::Value)>>)
    ensures
        match r {
            Some(es) => {
                &&& toml_entries(*v) == Some(
                    es@.map_values(|e: (String, toml::Value)| (e.0@, e.1)),
                )
                &&& forall|a: int, b: int|
                    0 <= a < b < es@.len() ==> (#[trigger] es@[a]).0@ != (#[trigger] es@[b]).0@
            },
            None => toml_entries(*v) is None,
        },
{
    v.as_table().map(|t| t.iter().map(|(k, x)| (k.clone(), x.clone())).collect())
}

/// Tables nest no deeper than `fuel` levels in `v`.
pub open spec fn fits(v: toml::Value, fuel: nat) -> bool
    decreases fuel,
{
    match toml_entries(v) {
        None => true,
        Some(es) => fuel > 0 && forall|i: int|
            0 <= i < es.len() ==> fits(#[trigger] es[i].1, (fuel - 1) as nat),
    }
}

/// `n` is the tree of `v` (within `fuel` levels): a table becomes a table of
/// the same keys in the same order, each over the tree of its value; anything
/// else is a leaf.
pub open spec fn node_from(v: toml::Value, fuel: nat, n: TomlNode) -> bool
    decreases fuel,
{
    match toml_entries(v) {
        None => n == TomlNode::Leaf(v),
        Some(es) => fuel > 0 && match n {
            TomlNode::Table(ents) => ents@.len() == es.len() && forall|i: int|
                0 <= i < es.len() ==> ents@[i].key@ == es[i].0 && node_from(
                    es[i].1,
                    (fuel - 1) as nat,
                    #[trigger] ents@[i].value,
                ),
            TomlNode::Leaf(_) => false,
        },
    }
}

/// The tree of a TOML value, within `fuel` levels of tables; `None` when the
/// tables nest deeper.
pub fn toml_node(v: toml::Value, fuel: usize) -> (r: Option<TomlNode>)
    ensures
        r is Some <==> fits(v, fuel as nat),
        r matches Some(n) ==> node_from(v, fuel as nat, n) && well_formed(n),
    decreases fuel,
{
    let ghost gv = v;
    match table_entries(&v) {
        None => Some(TomlNode::Leaf(v)),
        Some(es) => {
            if fuel == 0 {
                return None;
            }
            let ghost orig = es@;
            let ghost ov = orig.map_values(|e: (String, toml::Value)| (e.0@, e.1));
            let mut rest = es;
            assert(orig.len() == rest.len());
            let mut out: Vec<TomlEntry> = Vec::new();
            let mut i: usize = 0;
            while rest.len() > 0
                invariant
                    fuel > 0,
                    gv == v,
                    orig.len() <= usize::MAX,
                    toml_entries(gv) == Some(ov),
                    ov == orig.map_values(|e: (String, toml::Value)| (e.0@, e.1)),
                    forall|a: int, b: int|
                        0 <= a < b < orig.len() ==> (#[trigger] orig[a]).0@ != (#[trigger] orig[b]).0@,
                    i + rest@.len() == orig.len(),
                    rest@ == orig.skip(i as int),
                    out@.len() == i,
                    forall|q: int|
                        0 <= q < i ==> {
                            &&& (#[trigger] out@[q]).key@ == orig[q].0@
                            &&& node_from(orig[q].1, (fuel - 1) as nat, out@[q].value)
                            &&& well_formed(out@[q].value)
                            &&& fits(orig[q].1, (fuel - 1) as nat)
                        },
                decreases rest@.len(),
            {
                let (key, x) = rest.remove(0);
                proof {
                    assert(orig.skip(i as int)[0] == orig[i as int]);
                    assert(orig.skip(i + 1) =~= orig.skip(i as int).remove(0));
                }
                let ghost gx = x;
                match toml_node(x, fuel - 1) {
                    Some(n) => {
                        let ghost before = out@;
                        out.push(TomlEntry { key, value: n });
                        i = i + 1;
                        proof {
                            assert forall|q: int| 0 <= q < i implies {
                                &&& (#[trigger] out@[q]).key@ == orig[q].0@
                                &&& node_from(orig[q].1, (fuel - 1) as nat, out@[q].value)
                                &&& well_formed(out@[q].value)
                                &&& fits(orig[q].1, (fuel - 1) as nat)
                            } by {
                                if q < i - 1 {
                                    assert(out@[q] == before[q]);
                                }
                            }
                        }
                    },
                    None => {
                        proof {
                            assert(ov[i as int].1 == gx);
                            assert(!fits(gx, (fuel - 1) as nat));
                            assert(i < ov.len());
                            if fits(gv, fuel as nat) {
                                let es2 = toml_entries(gv)->0;
                                assert(es2 == ov);
                                assert(fits(es2[i as int].1, (fuel - 1) as nat));
                            }
                        }
                        return None;
                    },
                }
            }
            proof {
                assert(i == orig.len());
                assert forall|a: int, b: int| 0 <= a < b < out@.len() implies (#[trigger] out@[a]).key@
                    != (#[trigger] out@[b]).key@ by {
                    assert(orig[a].0@ != orig[b].0@);
                }
                lemma_entries_well_formed(out@, out@.len() as int);
                assert forall|q: int| 0 <= q < ov.len() implies fits(#[trigger] ov[q].1, (fuel - 1) as nat) by {
                    assert(out@[q].key@ == orig[q].0@);
                }
                assert forall|q: int| 0 <= q < ov.len() implies out@[q].key@ == ov[q].0 && node_from(
                    ov[q].1,
                    (fuel - 1) as nat,
                    #[trigger] out@[q].value,
                ) by {
                    assert(out@[q].key@ == orig[q].0@);
                }
            }
            Some(TomlNode::Table(out))
        },
    }
}

/// A configuration text that layering accepts: it is TOML, and its tables nest
/// no deeper than `usize::MAX` levels.
pub open spec fn layer_parses(s: Seq<char>) -> bool {
    toml_of_text(s) matches Some(v) && fits(v, usize::MAX as nat)
}

/// `r` is the documents of `texts` laid one over the other, in order, starting
/// from the empty table.
pub open spec fn layered(texts: Seq<Seq<char>>, r: TomlNode) -> bool
    decreases texts.len(),
{
    if texts.len() == 0 {
        r matches TomlNode::Table(es) && es@.len() == 0
    } else {
        exists|prev: TomlNode, node: TomlNode|
            #![trigger laid_over(prev, node, r)]
            layered(texts.drop_last(), prev) && node_from(
                toml_of_text(texts.last())->0,
                usize::MAX as nat,
                node,
            ) && laid_over(prev, node, r)
    }
}

/// Lays the configuration texts one over the other, as the layered loader does
/// with its sources in order.  `Err(i)` when text `i` is the first that is not
/// TOML; otherwise the merged document.
pub fn layer_config_texts(texts: &Vec<String>) -> (r: Result<TomlNode, usize>)
    ensures
        match r {
            Ok(n) => {
                &&& forall|j: int| 0 <= j < texts@.len() ==> layer_parses(#[trigger] texts@[j]@)
                &&& well_formed(n)
                &&& layered(texts@.map_values(|t: String| t@), n)
            },
            Err(i) => {
                &&& i < texts@.len()
                &&& forall|j: int| 0 <= j < i ==> layer_parses(#[trigger] texts@[j]@)
                &&& !layer_parses(texts@[i as int]@)
            },
        },
{
    let ghost tv = texts@.map_values(|t: String| t@);
    let mut merged = TomlNode::Table(Vec::new());
    let mut i: usize = 0;
    assert(tv.take(0) =~= Seq::<Seq<char>>::empty());
    while i < texts.len()
        invariant
            i <= texts.len(),
            tv == texts@.map_values(|t: String| t@),
            well_formed(merged),
            layered(tv.take(i as int), merged),
            forall|j: int| 0 <= j < i ==> layer_parses(#[trigger] texts@[j]@),
        decreases texts.len() - i,
    {
        let v = match parse_toml(texts[i].as_str()) {
            Some(v) => v,
            None => {
                return Err(i);
            },
        };
        let ghost gv = v;
        let node = match toml_node(v, usize::MAX) {
            Some(n) => n,
            None => {
                return Err(i);
            },
        };
        let ghost prev = merged;
        let ghost gn = node;
        merge_toml(&mut merged, node);
        proof {
            assert(tv.take(i + 1).drop_last() =~= tv.take(i as int));
            assert(tv.take(i + 1).last() == texts@[i as int]@);
            assert(laid_over(prev, gn, merged));
        }
        i = i + 1;
    }
    assert(tv.take(texts.len() as int) =~= tv);
    Ok(merged)
}

} // verus!
