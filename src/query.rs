use vstd::prelude::*;

verus! {

/// The first position at or after `i` that holds `ch`, or the length of `s`.
pub open spec fn next_of(s: Seq<char>, ch: char, i: int) -> int
    decreases s.len() - i,
{
    if i >= s.len() {
        s.len() as int
    } else if s[i] == ch {
        i
    } else {
        next_of(s, ch, i + 1)
    }
}

/// `seg` is `key=value`: the value, if so.
pub open spec fn segment_value(seg: Seq<char>, key: Seq<char>) -> Option<Seq<char>> {
    if seg.len() > key.len() && seg.subrange(0, key.len() as int) == key && seg[key.len() as int]
        == '=' {
        Some(seg.subrange(key.len() as int + 1, seg.len() as int))
    } else {
        None
    }
}

/// The value of the first `key=value` parameter of the `&`-separated query `q`
/// that starts at or after position `i`.
pub open spec fn param_from(q: Seq<char>, key: Seq<char>, i: int) -> Option<Seq<char>>
    decreases q.len() - i,
{
    if i < 0 || i > q.len() {
        None
    } else {
        let e = next_of(q, '&', i);
        match segment_value(q.subrange(i, e), key) {
            Some(v) => Some(v),
            None => if e >= q.len() || e < i {
                None
            } else {
                param_from(q, key, e + 1)
            },
        }
    }
}

/// The value of query parameter `key` in a request resource `path?query`.
pub open spec fn query_param(resource: Seq<char>, key: Seq<char>) -> Option<Seq<char>> {
    let p = next_of(resource, '?', 0);
    if p >= resource.len() {
        None
    } else {
        param_from(resource.subrange(p + 1, resource.len() as int), key, 0)
    }
}

proof fn lemma_next_of_bounds(s: Seq<char>, ch: char, i: int)
    requires
        0 <= i <= s.len(),
    ensures
        i <= next_of(s, ch, i) <= s.len(),
        next_of(s, ch, i) < s.len() ==> s[next_of(s, ch, i)] == ch,
    decreases s.len() - i,
{
    if i < s.len() && s[i] != ch {
        lemma_next_of_bounds(s, ch, i + 1);
    }
}

fn find_from(s: &str, len: usize, ch: char, i: usize) -> (r: usize)
    requires
        len == s@.len(),
        i <= len,
    ensures
        r == next_of(s@, ch, i as int),
        i <= r <= len,
{
    let mut j: usize = i;
    while j < len && s.get_char(j) != ch
        invariant
            i <= j <= len,
            len == s@.len(),
            next_of(s@, ch, j as int) == next_of(s@, ch, i as int),
        decreases len - j,
    {
        j = j + 1;
    }
    j
}

fn segment_matches(s: &str, from: usize, to: usize, key: &str) -> (r: bool)
    requires
        from <= to <= s@.len(),
    ensures
        r <==> segment_value(s@.subrange(from as int, to as int), key@) is Some,
{
    let klen = key.unicode_len();
    let ghost seg = s@.subrange(from as int, to as int);
    if to - from <= klen {
        return false;
    }
    let mut k: usize = 0;
    while k < klen
        invariant
            k <= klen,
            klen == key@.len(),
            klen < to - from,
            seg == s@.subrange(from as int, to as int),
            to <= s@.len(),
            seg.subrange(0, k as int) == key@.subrange(0, k as int),
        decreases klen - k,
    {
        if s.get_char(from + k) != key.get_char(k) {
            assert(seg.subrange(0, klen as int)[k as int] != key@[k as int]);
            return false;
        }
        assert(seg.subrange(0, k as int + 1) =~= key@.subrange(0, k as int + 1));
        k = k + 1;
    }
    assert(key@.subrange(0, klen as int) =~= key@);
    s.get_char(from + klen) == '='
}

/// The value of query parameter `key` in the request resource `resource`
/// (`path?name=value&name=value`), the first where the name repeats.
pub fn query_value(resource: &str, key: &str) -> (r: Option<String>)
    ensures
        match r {
            Some(v) => query_param(resource@, key@) == Some(v@),
            None => query_param(resource@, key@) is None,
        },
{
    let len = resource.unicode_len();
    let p = find_from(resource, len, '?', 0);
    if p >= len {
        return None;
    }
    let ghost q = resource@.subrange(p + 1, len as int);
    let klen = key.unicode_len();
    let mut i: usize = p + 1;
    loop
        invariant
            p + 1 <= i <= len,
            len == resource@.len(),
            klen == key@.len(),
            q == resource@.subrange(p + 1, len as int),
            query_param(resource@, key@) == param_from(q, key@, i - (p + 1)),
        decreases len - i,
    {
        let e = find_from(resource, len, '&', i);
        let ghost qi = i - (p + 1);
        proof {
            lemma_next_of_shift(resource@, p + 1, '&', i as int);
            assert(q.subrange(qi, e - (p + 1)) =~= resource@.subrange(i as int, e as int));
        }
        if segment_matches(resource, i, e, key) {
            let v = resource.substring_char(i + klen + 1, e);
            assert(v@ =~= resource@.subrange(i as int, e as int).subrange(klen + 1, e - i));
            return Some(v.to_string());
        }
        if e >= len {
            return None;
        }
        i = e + 1;
    }
}

proof fn lemma_next_of_shift(s: Seq<char>, base: int, ch: char, i: int)
    requires
        0 <= base <= i <= s.len(),
    ensures
        next_of(s.subrange(base, s.len() as int), ch, i - base) == next_of(s, ch, i) - base,
    decreases s.len() - i,
{
    let t = s.subrange(base, s.len() as int);
    if i < s.len() {
        assert(t[i - base] == s[i]);
        if s[i] != ch {
            lemma_next_of_shift(s, base, ch, i + 1);
        }
    }
}

} // verus!
