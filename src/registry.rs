use vstd::prelude::*;
use chashmap::CHashMap;

verus! {

#[verifier::external_type_specification]
#[verifier::external_body]
#[verifier::reject_recursive_types(K)]
#[verifier::reject_recursive_types(V)]
pub struct ExCHashMap<K, V>(chashmap::CHashMap<K, V>);

/// What a connection table holds: for each user, the connections in it.
pub uninterp spec fn conn_table(m: CHashMap<String, Vec<u64>>) -> Map<Seq<char>, Seq<u64>>;

/// `s` without any occurrence of `c`, the rest in order.
pub open spec fn without(s: Seq<u64>, c: u64) -> Seq<u64>
    decreases s.len(),
{
    if s.len() == 0 {
        s
    } else if s.last() == c {
        without(s.drop_last(), c)
    } else {
        without(s.drop_last(), c).push(s.last())
    }
}

/// The connections of an entry after adding (`add`) or removing `c`; an entry
/// left empty is `None`.
pub open spec fn entry_after(e: Option<Seq<u64>>, c: u64, add: bool) -> Option<Seq<u64>> {
    let s = match e {
        Some(s) => s,
        None => Seq::empty(),
    };
    let t = if add {
        if s.contains(c) {
            s
        } else {
            s.push(c)
        }
    } else {
        without(s, c)
    };
    if t.len() == 0 {
        None
    } else {
        Some(t)
    }
}

/// The entry of `k` in `m`, if any.
pub open spec fn entry_of(m: Map<Seq<char>, Seq<u64>>, k: Seq<char>) -> Option<Seq<u64>> {
    if m.contains_key(k) {
        Some(m[k])
    } else {
        None
    }
}

/// The table after the entry of `k` is replaced by `entry_after` of it.
pub open spec fn altered(m: Map<Seq<char>, Seq<u64>>, k: Seq<char>, c: u64, add: bool) -> Map<
    Seq<char>,
    Seq<u64>,
> {
    match entry_after(entry_of(m, k), c, add) {
        Some(t) => m.insert(k, t),
        None => m.remove(k),
    }
}

/// The connections registered for `u`: empty where the table has no entry.
pub open spec fn conns_of(m: Map<Seq<char>, Seq<u64>>, u: Seq<char>) -> Seq<u64> {
    if m.contains_key(u) {
        m[u]
    } else {
        Seq::empty()
    }
}

/// Every entry is non-empty and holds no connection twice.
pub open spec fn table_wf(m: Map<Seq<char>, Seq<u64>>) -> bool {
    forall|k: Seq<char>| #[trigger]
        m.contains_key(k) ==> m[k].len() > 0 && m[k].no_duplicates()
}

/// The table with no entry.
pub open spec fn empty_table() -> Map<Seq<char>, Seq<u64>> {
    Map::empty()
}

/// The contents of an optional list of connections.
pub open spec fn opt_view(o: Option<Vec<u64>>) -> Option<Seq<u64>> {
    match o {
        Some(v) => Some(v@),
        None => None,
    }
}

/// Relies on CHashMap::new: a new map holds no entry.
#[verifier::external_body]
fn new_table() -> (r: CHashMap<String, Vec<u64>>)
    ensures
        conn_table(r) == empty_table(),
{
    CHashMap::new()
}

/// Relies on CHashMap::alter: the entry of `key` (or `None`) goes through the
/// closure; a `Some` result is stored under `key`, a `None` result removes it.
#[verifier::external_body]
fn table_alter(m: &mut CHashMap<String, Vec<u64>>, key: String, conn: u64, add: bool)
    ensures
        conn_table(*final(m)) == altered(conn_table(*old(m)), key@, conn, add),
{
    m.alter(key, |e| next_entry(e, conn, add))
}

/// Relies on CHashMap::alter, used to read: the entry of `key` (or `None`)
/// goes through the closure, which hands it back unchanged and keeps a copy, so
/// the map holds what it held. `get` is not used: its bucket scan panics once
/// no bucket of the table is left empty, while `alter` falls back on a removed
/// bucket. This takes `&` where `table_alter` takes `&mut`, so that readers can
/// share the map; what the map holds is left as it was.
#[verifier::external_body]
fn table_read(m: &CHashMap<String, Vec<u64>>, key: &str) -> (r: Option<Vec<u64>>)
    ensures
        opt_view(r) == entry_of(conn_table(*m), key@),
{
    let mut copy: Option<Vec<u64>> = None;
    m.alter(key.to_string(), |e| kept_entry(e, &mut copy));
    copy
}

/// Hands an entry back unchanged and leaves a copy of it in `copy`.
fn kept_entry(entry: Option<Vec<u64>>, copy: &mut Option<Vec<u64>>) -> (r: Option<Vec<u64>>)
    ensures
        r == entry,
        opt_view(*final(copy)) == opt_view(entry),
{
    *copy = match &entry {
        Some(v) => {
            let c = v.clone();
            assert(c@ =~= v@);
            Some(c)
        },
        None => None,
    };
    entry
}

proof fn lemma_without_contains(s: Seq<u64>, c: u64)
    ensures
        forall|x: u64| #[trigger] without(s, c).contains(x) <==> s.contains(x) && x != c,
        s.no_duplicates() ==> without(s, c).no_duplicates(),
    decreases s.len(),
{
    if s.len() > 0 {
        let p = s.drop_last();
        lemma_without_contains(p, c);
        assert forall|x: u64| s.contains(x) <==> p.contains(x) || x == s.last() by {
            if s.contains(x) {
                let i = choose|i: int| 0 <= i < s.len() && s[i] == x;
                if i < s.len() - 1 {
                    assert(p[i] == x);
                }
            }
            if p.contains(x) {
                let i = choose|i: int| 0 <= i < p.len() && p[i] == x;
                assert(s[i] == x);
            }
            if x == s.last() {
                assert(s[s.len() - 1] == x);
            }
        }
        let w = without(p, c);
        if s.last() != c {
            assert forall|x: u64| w.push(s.last()).contains(x) <==> w.contains(x) || x == s.last() by {
                if w.push(s.last()).contains(x) {
                    let i = choose|i: int| 0 <= i < w.len() + 1 && w.push(s.last())[i] == x;
                    if i < w.len() {
                        assert(w[i] == x);
                    }
                }
                if w.contains(x) {
                    let i = choose|i: int| 0 <= i < w.len() && w[i] == x;
                    assert(w.push(s.last())[i] == x);
                }
                if x == s.last() {
                    assert(w.push(s.last())[w.len() as int] == x);
                }
            }
            if s.no_duplicates() {
                assert(p.no_duplicates());
                assert(!p.contains(s.last())) by {
                    if p.contains(s.last()) {
                        let i = choose|i: int| 0 <= i < p.len() && p[i] == s.last();
                        assert(s[i] == s[s.len() - 1]);
                    }
                }
                assert(!w.contains(s.last()));
                lemma_push_no_dup(w, s.last());
            }
            assert forall|x: u64| #[trigger] without(s, c).contains(x) <==> s.contains(x) && x
                != c by {
                assert(without(s, c) == w.push(s.last()));
                assert(w.push(s.last()).contains(x) <==> w.contains(x) || x == s.last());
                assert(s.contains(x) <==> p.contains(x) || x == s.last());
                assert(w.contains(x) <==> p.contains(x) && x != c);
            }
        } else {
            if s.no_duplicates() {
                assert(p.no_duplicates());
            }
            assert forall|x: u64| #[trigger] without(s, c).contains(x) <==> s.contains(x) && x
                != c by {
                assert(without(s, c) == w);
            }
        }
    }
}

proof fn lemma_push_no_dup(s: Seq<u64>, c: u64)
    requires
        s.no_duplicates(),
        !s.contains(c),
    ensures
        s.push(c).no_duplicates(),
        forall|x: u64| #[trigger] s.push(c).contains(x) <==> s.contains(x) || x == c,
{
    let t = s.push(c);
    assert forall|i: int, j: int| 0 <= i < t.len() && 0 <= j < t.len() && i != j implies t[i]
        != t[j] by {
        if i == s.len() as int {
            assert(s[j] == t[j]);
        } else if j == s.len() as int {
            assert(s[i] == t[i]);
        }
    }
    assert forall|x: u64| t.contains(x) <==> s.contains(x) || x == c by {
        if t.contains(x) {
            let i = choose|i: int| 0 <= i < t.len() && t[i] == x;
            if i < s.len() {
                assert(s[i] == x);
            }
        }
        if s.contains(x) {
            let i = choose|i: int| 0 <= i < s.len() && s[i] == x;
            assert(t[i] == x);
        }
        if x == c {
            assert(t[s.len() as int] == x);
        }
    }
}

/// The entry that a connection table stores after `c` is added or removed.
fn next_entry(entry: Option<Vec<u64>>, conn: u64, add: bool) -> (r: Option<Vec<u64>>)
    ensures
        opt_view(r) == entry_after(opt_view(entry), conn, add),
{
    let v: Vec<u64> = match entry {
        Some(v) => v,
        None => Vec::new(),
    };
    let ghost s = v@;
    let mut present = false;
    let mut out: Vec<u64> = Vec::new();
    let mut i: usize = 0;
    while i < v.len()
        invariant
            i <= v.len(),
            v@ == s,
            out@ == without(s.subrange(0, i as int), conn),
            present <==> s.subrange(0, i as int).contains(conn),
        decreases v.len() - i,
    {
        let ghost p = s.subrange(0, i as int);
        let ghost q = s.subrange(0, i as int + 1);
        assert(q.drop_last() =~= p);
        assert(q.last() == v[i as int]);
        if v[i] == conn {
            present = true;
            assert(q.contains(conn)) by {
                assert(q[i as int] == conn);
            }
        } else {
            out.push(v[i]);
            assert(q.contains(conn) <==> p.contains(conn)) by {
                if q.contains(conn) {
                    let j = choose|j: int| 0 <= j < q.len() && q[j] == conn;
                    assert(p[j] == conn);
                }
                if p.contains(conn) {
                    let j = choose|j: int| 0 <= j < p.len() && p[j] == conn;
                    assert(q[j] == conn);
                }
            }
        }
        i = i + 1;
    }
    assert(s.subrange(0, s.len() as int) =~= s);
    let t: Vec<u64> = if add {
        if present {
            v
        } else {
            let mut v = v;
            v.push(conn);
            v
        }
    } else {
        out
    };
    if t.len() == 0 {
        None
    } else {
        Some(t)
    }
}

proof fn lemma_altered(m: Map<Seq<char>, Seq<u64>>, k: Seq<char>, c: u64, add: bool)
    requires
        table_wf(m),
    ensures
        table_wf(altered(m, k, c, add)),
        forall|u: Seq<char>, x: u64| #[trigger]
            conns_of(altered(m, k, c, add), u).contains(x) <==> if u == k {
                if add {
                    conns_of(m, u).contains(x) || x == c
                } else {
                    conns_of(m, u).contains(x) && x != c
                }
            } else {
                conns_of(m, u).contains(x)
            },
{
    let s = conns_of(m, k);
    assert(entry_of(m, k) matches Some(t) ==> t == s);
    assert(s.no_duplicates());
    lemma_without_contains(s, c);
    if add && !s.contains(c) {
        lemma_push_no_dup(s, c);
    }
    let r = altered(m, k, c, add);
    assert forall|u: Seq<char>, x: u64| #[trigger]
        conns_of(r, u).contains(x) <==> if u == k {
            if add {
                conns_of(m, u).contains(x) || x == c
            } else {
                conns_of(m, u).contains(x) && x != c
            }
        } else {
            conns_of(m, u).contains(x)
        } by {
        if u == k {
            if add {
                if s.contains(c) {
                    assert(conns_of(r, u) == s);
                } else {
                    assert(conns_of(r, u) == s.push(c));
                    assert(s.push(c).contains(x) <==> s.contains(x) || x == c);
                }
            } else {
                let w = without(s, c);
                assert(w.contains(x) <==> s.contains(x) && x != c);
                if w.len() == 0 {
                    assert(conns_of(r, u) == Seq::<u64>::empty());
                    assert(!w.contains(x));
                } else {
                    assert(conns_of(r, u) == w);
                }
            }
        } else {
            assert(conns_of(r, u) == conns_of(m, u));
        }
    }
}

/// A change to the registry: a connection registered or deregistered for a user.
pub enum RegistryOp {
    Register(Seq<char>, u64),
    Deregister(Seq<char>, u64),
}

/// The table after one change.
pub open spec fn apply_op(m: Map<Seq<char>, Seq<u64>>, op: RegistryOp) -> Map<
    Seq<char>,
    Seq<u64>,
> {
    match op {
        RegistryOp::Register(u, c) => altered(m, u, c, true),
        RegistryOp::Deregister(u, c) => altered(m, u, c, false),
    }
}

/// The table after a sequence of changes, starting from the empty one.
pub open spec fn replay(ops: Seq<RegistryOp>) -> Map<Seq<char>, Seq<u64>>
    decreases ops.len(),
{
    if ops.len() == 0 {
        empty_table()
    } else {
        apply_op(replay(ops.drop_last()), ops.last())
    }
}

/// Connection `c` was registered for `u` and not deregistered for `u` since.
pub open spec fn live(ops: Seq<RegistryOp>, u: Seq<char>, c: u64) -> bool {
    exists|i: int|
        0 <= i < ops.len() && ops[i] == RegistryOp::Register(u, c) && forall|j: int|
            i < j < ops.len() ==> ops[j] != RegistryOp::Deregister(u, c)
}

proof fn lemma_live_step(ops: Seq<RegistryOp>, u: Seq<char>, c: u64)
    requires
        ops.len() > 0,
    ensures
        live(ops, u, c) <==> if ops.last() == RegistryOp::Register(u, c) {
            true
        } else if ops.last() == RegistryOp::Deregister(u, c) {
            false
        } else {
            live(ops.drop_last(), u, c)
        },
{
    let p = ops.drop_last();
    let n = ops.len() - 1;
    if ops.last() == RegistryOp::Register(u, c) {
        assert(ops[n] == RegistryOp::Register(u, c));
    } else if ops.last() == RegistryOp::Deregister(u, c) {
        if live(ops, u, c) {
            let i = choose|i: int|
                0 <= i < ops.len() && ops[i] == RegistryOp::Register(u, c) && forall|j: int|
                    i < j < ops.len() ==> ops[j] != RegistryOp::Deregister(u, c);
            assert(i != n);
            assert(ops[n] != RegistryOp::Deregister(u, c));
        }
    } else {
        if live(ops, u, c) {
            let i = choose|i: int|
                0 <= i < ops.len() && ops[i] == RegistryOp::Register(u, c) && forall|j: int|
                    i < j < ops.len() ==> ops[j] != RegistryOp::Deregister(u, c);
            assert(i < n);
            assert(p[i] == RegistryOp::Register(u, c));
            assert forall|j: int| i < j < p.len() implies p[j] != RegistryOp::Deregister(u, c) by {
                assert(ops[j] == p[j]);
            }
        }
        if live(p, u, c) {
            let i = choose|i: int|
                0 <= i < p.len() && p[i] == RegistryOp::Register(u, c) && forall|j: int|
                    i < j < p.len() ==> p[j] != RegistryOp::Deregister(u, c);
            assert(ops[i] == RegistryOp::Register(u, c));
            assert forall|j: int| i < j < ops.len() implies ops[j] != RegistryOp::Deregister(
                u,
                c,
            ) by {
                if j < n {
                    assert(ops[j] == p[j]);
                }
            }
        }
    }
}

/// After any sequence of registrations and deregistrations, starting from an
/// empty registry, the connections listed for a user are exactly those
/// registered for that user and not deregistered since, each listed once.
pub proof fn lemma_registry_lists_live(ops: Seq<RegistryOp>, u: Seq<char>)
    ensures
        table_wf(replay(ops)),
        conns_of(replay(ops), u).no_duplicates(),
        forall|c: u64| #[trigger] conns_of(replay(ops), u).contains(c) <==> live(ops, u, c),
    decreases ops.len(),
{
    if ops.len() > 0 {
        let p = ops.drop_last();
        lemma_registry_lists_live(p, u);
        let m = replay(p);
        match ops.last() {
            RegistryOp::Register(k, c) => lemma_altered(m, k, c, true),
            RegistryOp::Deregister(k, c) => lemma_altered(m, k, c, false),
        }
        assert forall|c: u64| #[trigger]
            conns_of(replay(ops), u).contains(c) <==> live(ops, u, c) by {
            lemma_live_step(ops, u, c);
        }
    }
    assert(table_wf(replay(ops)));
}

/// Deregistering a connection a second time changes nothing, and
/// deregistering never removes another connection, nor one of another user.
pub proof fn lemma_deregister_idempotent(m: Map<Seq<char>, Seq<u64>>, u: Seq<char>, c: u64)
    requires
        table_wf(m),
    ensures
        altered(altered(m, u, c, false), u, c, false) == altered(m, u, c, false),
        forall|v: Seq<char>, x: u64|
            (v != u || x != c) ==> (#[trigger] conns_of(altered(m, u, c, false), v).contains(x)
                <==> conns_of(m, v).contains(x)),
{
    lemma_altered(m, u, c, false);
    let m1 = altered(m, u, c, false);
    lemma_without_contains(conns_of(m, u), c);
    let s1 = conns_of(m1, u);
    lemma_without_contains(s1, c);
    assert(without(s1, c) == s1) by {
        lemma_without_absent(s1, c);
    }
    assert(altered(m1, u, c, false) =~= m1);
}

proof fn lemma_without_absent(s: Seq<u64>, c: u64)
    requires
        !s.contains(c),
    ensures
        without(s, c) == s,
    decreases s.len(),
{
    if s.len() > 0 {
        let p = s.drop_last();
        assert(!p.contains(c)) by {
            if p.contains(c) {
                let i = choose|i: int| 0 <= i < p.len() && p[i] == c;
                assert(s[i] == c);
            }
        }
        lemma_without_absent(p, c);
        assert(s.last() != c) by {
            assert(s[s.len() - 1] == s.last());
        }
        assert(p.push(s.last()) =~= s);
    }
}

proof fn lemma_count_no_dup(s: Seq<u64>)
    requires
        s.no_duplicates(),
    ensures
        forall|x: u64| #[trigger]
            s.to_multiset().count(x) == if s.contains(x) {
                1nat
            } else {
                0nat
            },
{
    s.to_multiset_ensures();
    s.lemma_multiset_has_no_duplicates();
}

/// Registering a connection that is not yet listed for a user adds exactly
/// one occurrence of it to that user's connections, and leaves the
/// connections of every other user as they were.
pub proof fn lemma_register_adds_once(m: Map<Seq<char>, Seq<u64>>, u: Seq<char>, c: u64)
    requires
        table_wf(m),
        !conns_of(m, u).contains(c),
    ensures
        conns_of(apply_op(m, RegistryOp::Register(u, c)), u).to_multiset() =~= conns_of(
            m,
            u,
        ).to_multiset().insert(c),
        forall|v: Seq<char>|
            v != u ==> #[trigger] conns_of(apply_op(m, RegistryOp::Register(u, c)), v)
                == conns_of(m, v),
{
    let s = conns_of(m, u);
    assert(conns_of(apply_op(m, RegistryOp::Register(u, c)), u) == s.push(c));
    s.to_multiset_ensures();
}

/// Deregistering a connection that is listed for a user removes exactly one
/// occurrence of it from that user's connections, and leaves the connections
/// of every other user as they were.
pub proof fn lemma_deregister_removes_once(m: Map<Seq<char>, Seq<u64>>, u: Seq<char>, c: u64)
    requires
        table_wf(m),
        conns_of(m, u).contains(c),
    ensures
        conns_of(apply_op(m, RegistryOp::Deregister(u, c)), u).to_multiset() =~= conns_of(
            m,
            u,
        ).to_multiset().remove(c),
        forall|v: Seq<char>|
            v != u ==> #[trigger] conns_of(apply_op(m, RegistryOp::Deregister(u, c)), v)
                == conns_of(m, v),
{
    let s = conns_of(m, u);
    let m1 = apply_op(m, RegistryOp::Deregister(u, c));
    lemma_altered(m, u, c, false);
    let t = conns_of(m1, u);
    assert(s.no_duplicates());
    lemma_without_contains(s, c);
    assert(t.no_duplicates()) by {
        if without(s, c).len() > 0 {
            assert(t == without(s, c));
        } else {
            assert(t.len() == 0);
        }
    }
    lemma_count_no_dup(s);
    lemma_count_no_dup(t);
    assert forall|x: u64| t.to_multiset().count(x) == s.to_multiset().remove(c).count(x) by {
        assert(t.contains(x) <==> s.contains(x) && x != c);
    }
}

/// The live connections of every user: for each user id, the connection ids
/// registered for it.
pub struct Registry {
    table: CHashMap<String, Vec<u64>>,
}

impl View for Registry {
    type V = Map<Seq<char>, Seq<u64>>;

    closed spec fn view(&self) -> Map<Seq<char>, Seq<u64>> {
        conn_table(self.table)
    }
}

impl Registry {
    /// Every entry is non-empty and lists no connection twice.
    pub open spec fn wf(&self) -> bool {
        table_wf(self@)
    }

    /// A registry with no connection.
    pub fn new() -> (r: Registry)
        ensures
            r@ == empty_table(),
            r.wf(),
    {
        Registry { table: new_table() }
    }

    /// Adds `conn` to the connections of `user_uuid`, creating the entry where
    /// there is none; a connection already listed is not listed again.
    pub fn register(&mut self, user_uuid: &String, conn: u64)
        requires
            old(self).wf(),
        ensures
            final(self).wf(),
            final(self)@ == apply_op(old(self)@, RegistryOp::Register(user_uuid@, conn)),
    {
        proof {
            lemma_altered(self@, user_uuid@, conn, true);
        }
        table_alter(&mut self.table, user_uuid.clone(), conn, true);
    }

    /// Removes `conn` from the connections of `user_uuid`; an entry left empty
    /// goes. Nothing changes where `conn` is not listed there.
    pub fn deregister(&mut self, user_uuid: &String, conn: u64)
        requires
            old(self).wf(),
        ensures
            final(self).wf(),
            final(self)@ == apply_op(old(self)@, RegistryOp::Deregister(user_uuid@, conn)),
    {
        proof {
            lemma_altered(self@, user_uuid@, conn, false);
        }
        table_alter(&mut self.table, user_uuid.clone(), conn, false);
    }

    /// A copy of the connections of `user_uuid`: empty where it has none.
    pub fn lookup(&self, user_uuid: &str) -> (r: Vec<u64>)
        ensures
            r@ == conns_of(self@, user_uuid@),
    {
        match table_read(&self.table, user_uuid) {
            Some(v) => v,
            None => Vec::new(),
        }
    }
}

} // verus!
