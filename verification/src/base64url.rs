use vstd::prelude::*;

verus! {

/// The base64url alphabet (RFC 4648 §5): the character for a 6-bit value.
pub open spec fn b64url_digit(v: int) -> u8 {
    if v < 26 {
        (0x41 + v) as u8
    } else if v < 52 {
        (0x61 + (v - 26)) as u8
    } else if v < 62 {
        (0x30 + (v - 52)) as u8
    } else if v == 62 {
        0x2du8
    } else {
        0x5fu8
    }
}

/// The base64url characters of a group of one to three bytes, without padding.
pub open spec fn encode_group(g: Seq<u8>) -> Seq<u8> {
    let b0 = g[0] as int;
    let b1 = g[1] as int;
    let b2 = g[2] as int;
    if g.len() == 1 {
        seq![b64url_digit(b0 / 4), b64url_digit((b0 % 4) * 16)]
    } else if g.len() == 2 {
        seq![
            b64url_digit(b0 / 4),
            b64url_digit((b0 % 4) * 16 + b1 / 16),
            b64url_digit((b1 % 16) * 4),
        ]
    } else {
        seq![
            b64url_digit(b0 / 4),
            b64url_digit((b0 % 4) * 16 + b1 / 16),
            b64url_digit((b1 % 16) * 4 + b2 / 64),
            b64url_digit(b2 % 64),
        ]
    }
}

/// The size of the next group: three bytes, or what is left.
pub open spec fn group_len(n: int) -> int {
    if n < 3 {
        n
    } else {
        3
    }
}

/// The unpadded base64url encoding of a byte string.
pub open spec fn base64url(data: Seq<u8>) -> Seq<u8>
    decreases data.len(),
{
    if data.len() == 0 {
        Seq::empty()
    } else {
        let n = group_len(data.len() as int);
        encode_group(data.take(n)) + base64url(data.skip(n))
    }
}

fn digit(v: u8) -> (c: u8)
    requires
        v < 64,
    ensures
        c == b64url_digit(v as int),
{
    if v < 26 {
        0x41u8 + v
    } else if v < 52 {
        0x61u8 + (v - 26)
    } else if v < 62 {
        0x30u8 + (v - 52)
    } else if v == 62 {
        0x2du8
    } else {
        0x5fu8
    }
}

/// The unpadded base64url encoding of `data`.
pub fn base64url_encode(data: &[u8]) -> (encoded: Vec<u8>)
    ensures
        encoded@ == base64url(data@),
{
    let len = data.len();
    let mut out: Vec<u8> = Vec::new();
    let mut i: usize = 0;
    assert(data@.skip(0) =~= data@);
    while i < len
        invariant
            len == data@.len(),
            0 <= i <= len,
            base64url(data@) == out@ + base64url(data@.skip(i as int)),
        decreases len - i,
    {
        let rest = len - i;
        let n: usize = if rest < 3 { rest } else { 3 };
        let ghost tail = data@.skip(i as int);
        let ghost group = tail.take(n as int);
        let ghost out_before = out@;
        let b0 = data[i];
        out.push(digit(b0 / 4));
        if n == 1 {
            out.push(digit((b0 % 4) * 16));
        } else {
            let b1 = data[i + 1];
            out.push(digit((b0 % 4) * 16 + b1 / 16));
            if n == 2 {
                out.push(digit((b1 % 16) * 4));
            } else {
                let b2 = data[i + 2];
                out.push(digit((b1 % 16) * 4 + b2 / 64));
                out.push(digit(b2 % 64));
            }
        }
        proof {
            assert(group[0] == b0);
            if n >= 2 {
                assert(group[1] == data@[i + 1]);
            }
            if n == 3 {
                assert(group[2] == data@[i + 2]);
            }
            assert(tail.skip(n as int) =~= data@.skip(i + n));
            assert(base64url(tail) == encode_group(group) + base64url(tail.skip(n as int)));
            assert(out@ =~= out_before + encode_group(group));
        }
        i = i + n;
        proof {
            assert(base64url(data@) =~= out@ + base64url(data@.skip(i as int)));
        }
    }
    assert(data@.skip(len as int) =~= Seq::<u8>::empty());
    assert(out@ + Seq::<u8>::empty() =~= out@);
    out
}

} // verus!
