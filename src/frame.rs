use vstd::prelude::*;

verus! {

/// The variable-length length prefix of a frame: seven bits per byte, least
/// significant group first, the high bit set on every byte but the last.
pub open spec fn varint(n: nat) -> Seq<u8>
    decreases n,
{
    if n < 128 {
        seq![n as u8]
    } else {
        seq![(n % 128 + 128) as u8] + varint(n / 128)
    }
}

/// A frame: the length prefix of the body, then the body.
pub open spec fn framed(body: Seq<u8>) -> Seq<u8> {
    varint(body.len()) + body
}

/// Reads a length prefix at the start of `bytes`: the value and the number of
/// prefix bytes, or `None` where the bytes end before the prefix does.
pub open spec fn read_varint(bytes: Seq<u8>) -> Option<(nat, nat)>
    decreases bytes.len(),
{
    if bytes.len() == 0 {
        None
    } else if bytes[0] < 128 {
        Some((bytes[0] as nat, 1))
    } else {
        match read_varint(bytes.subrange(1, bytes.len() as int)) {
            Some((v, k)) => Some(((bytes[0] - 128) as nat + 128 * v, k + 1)),
            None => None,
        }
    }
}

proof fn lemma_varint_read(n: nat, rest: Seq<u8>)
    ensures
        read_varint(varint(n) + rest) == Some((n, varint(n).len())),
    decreases n,
{
    let s = varint(n) + rest;
    if n < 128 {
        assert(s[0] == n as u8);
    } else {
        let q = n / 128;
        lemma_varint_read(q, rest);
        assert(s.subrange(1, s.len() as int) =~= varint(q) + rest);
        assert(s[0] == (n % 128 + 128) as u8);
    }
}

/// Decoding the length prefix of any frame gives exactly the length of what
/// follows the prefix.
pub proof fn lemma_frame_round_trip(body: Seq<u8>)
    ensures
        read_varint(framed(body)) matches Some((len, k)) && len == body.len() && k
            == varint(body.len()).len() && framed(body).len() - k == len,
{
    lemma_varint_read(body.len(), body);
}

/// Puts the length prefix of `body` in front of it.
pub fn frame(body: Vec<u8>) -> (r: Vec<u8>)
    ensures
        r@ == framed(body@),
{
    let mut out: Vec<u8> = Vec::new();
    let mut size: usize = body.len();
    loop
        invariant_except_break
            out@ + varint(size as nat) == varint(body@.len()),
        ensures
            out@ == varint(body@.len()),
        decreases size,
    {
        let mut part: u8 = (size % 128) as u8;
        let rest: usize = size / 128;
        if rest > 0 {
            part = part + 128;
        }
        out.push(part);
        proof {
            if size < 128 {
                assert(varint(size as nat) =~= seq![part]);
            } else {
                assert(varint(size as nat) =~= seq![part] + varint(rest as nat));
            }
        }
        if rest == 0 {
            assert(out@ =~= varint(body@.len()));
            break;
        }
        assert(out@ + varint(rest as nat) =~= varint(body@.len()));
        size = rest;
    }
    let mut i: usize = 0;
    let ghost prefix = out@;
    while i < body.len()
        invariant
            prefix == varint(body@.len()),
            i <= body.len(),
            out@ =~= prefix + body@.subrange(0, i as int),
        decreases body.len() - i,
    {
        out.push(body[i]);
        i = i + 1;
        assert(out@ =~= prefix + body@.subrange(0, i as int));
    }
    assert(body@.subrange(0, body@.len() as int) =~= body@);
    out
}

/// Reads the length prefix at the start of a frame: the length it announces and
/// the number of bytes it takes, or `None` where the bytes end within the
/// prefix or the length does not fit in a `usize`.
pub fn read_length_prefix(bytes: &Vec<u8>) -> (r: Option<(usize, usize)>)
    ensures
        match read_varint(bytes@) {
            Some((v, k)) => if v <= usize::MAX {
                r == Some((v as usize, k as usize))
            } else {
                r is None
            },
            None => r is None,
        },
{
    // Find the last byte of the prefix first, then fold the groups back to front.
    let mut end: usize = 0;
    while end < bytes.len() && bytes[end] >= 128
        invariant
            end <= bytes@.len(),
            forall|j: int| 0 <= j < end ==> bytes@[j] >= 128,
        decreases bytes.len() - end,
    {
        end = end + 1;
    }
    proof {
        lemma_read_varint_scan(bytes@, end as int);
    }
    if end == bytes.len() {
        return None;
    }
    let mut value: u128 = bytes[end] as u128;
    let mut i: usize = end;
    while i > 0
        invariant
            i <= end < bytes@.len(),
            forall|j: int| 0 <= j < end ==> bytes@[j] >= 128,
            read_varint(bytes@.subrange(i as int, bytes@.len() as int)) == Some(
                (value as nat, (end - i + 1) as nat),
            ),
        decreases i,
    {
        if value > usize::MAX as u128 {
            proof {
                lemma_read_varint_grows(bytes@, i as int);
            }
            return None;
        }
        let b: u8 = bytes[i - 1];
        proof {
            let s = bytes@.subrange(i - 1, bytes@.len() as int);
            assert(s.subrange(1, s.len() as int) =~= bytes@.subrange(i as int, bytes@.len() as int));
        }
        value = (b - 128) as u128 + 128 * value;
        i = i - 1;
    }
    assert(bytes@.subrange(0, bytes@.len() as int) =~= bytes@);
    if value > usize::MAX as u128 {
        return None;
    }
    Some((value as usize, end + 1))
}

proof fn lemma_read_varint_scan(bytes: Seq<u8>, end: int)
    requires
        0 <= end <= bytes.len(),
        forall|j: int| 0 <= j < end ==> bytes[j] >= 128,
        end < bytes.len() ==> bytes[end] < 128,
    ensures
        end == bytes.len() ==> read_varint(bytes) is None,
        end < bytes.len() ==> read_varint(bytes.subrange(end, bytes.len() as int)) == Some(
            (bytes[end] as nat, 1nat),
        ),
    decreases end,
{
    if end > 0 {
        let s = bytes.subrange(1, bytes.len() as int);
        lemma_read_varint_scan(s, end - 1);
        assert(s.subrange(end - 1, s.len() as int) =~= bytes.subrange(end, bytes.len() as int));
    }
}

proof fn lemma_read_varint_grows(bytes: Seq<u8>, i: int)
    requires
        0 < i <= bytes.len(),
        forall|j: int| 0 <= j < i ==> bytes[j] >= 128,
        read_varint(bytes.subrange(i, bytes.len() as int)) matches Some((v, _)) && v
            > usize::MAX,
    ensures
        read_varint(bytes) matches Some((v, _)) && v > usize::MAX,
    decreases i,
{
    let s = bytes.subrange(1, bytes.len() as int);
    assert(s.subrange(i - 1, s.len() as int) =~= bytes.subrange(i, bytes.len() as int));
    if i > 1 {
        lemma_read_varint_grows(s, i - 1);
    }
}

} // verus!
