use vstd::prelude::*;

verus! {

/// The content-hash identifier of a block: 32 bytes.
#[derive(Clone, Copy, Debug, PartialEq, Eq)]
pub struct BlockHash {
    pub bytes: [u8; 32],
}

impl View for BlockHash {
    type V = Seq<u8>;

    open spec fn view(&self) -> Seq<u8> {
        self.bytes@
    }
}

/// The hash result of one query, as plain bytes.
pub open spec fn hash_result_view(r: Option<BlockHash>) -> Option<Seq<u8>> {
    match r {
        Some(h) => Some(h@),
        None => None,
    }
}

/// Lower-case hexadecimal digits, indexed by their value.
pub open spec fn hex_alphabet() -> Seq<char> {
    seq!['0', '1', '2', '3', '4', '5', '6', '7', '8', '9', 'a', 'b', 'c', 'd', 'e', 'f']
}

/// Two lower-case hex digits per byte, most significant digit first.
pub open spec fn hex_of(b: Seq<u8>) -> Seq<char>
    decreases b.len(),
{
    if b.len() == 0 {
        Seq::empty()
    } else {
        let x = b.last();
        hex_of(b.drop_last()) + seq![hex_alphabet()[x as int / 16], hex_alphabet()[x as int % 16]]
    }
}

/// The debug form of a hash: `0x` and the hex digits of all its bytes.
pub open spec fn hash_text(b: Seq<u8>) -> Seq<char> {
    seq!['0', 'x'] + hex_of(b)
}

/// The fixed prefix of every response body.
pub open spec fn body_prefix() -> Seq<char> {
    seq!['H', 'a', 's', 'h', ':', ' ']
}

/// The response body for a hash result: `Hash: None`, or `Hash: Some(0x...)`.
pub open spec fn body_text(r: Option<Seq<u8>>) -> Seq<char> {
    match r {
        None => body_prefix() + seq!['N', 'o', 'n', 'e'],
        Some(b) => body_prefix() + seq!['S', 'o', 'm', 'e', '('] + hash_text(b) + seq![')'],
    }
}

proof fn lemma_hex_len(b: Seq<u8>)
    ensures
        hex_of(b).len() == 2 * b.len(),
    decreases b.len(),
{
    if b.len() > 0 {
        lemma_hex_len(b.drop_last());
    }
}

proof fn lemma_hex_digit_value(i: int)
    requires
        0 <= i < 16,
    ensures
        hex_alphabet()[i] as u32 == if i < 10 {
            48 + i
        } else {
            87 + i
        },
{
}

proof fn lemma_hex_injective(a: Seq<u8>, b: Seq<u8>)
    requires
        hex_of(a) == hex_of(b),
    ensures
        a == b,
    decreases a.len(),
{
    lemma_hex_len(a);
    lemma_hex_len(b);
    if a.len() > 0 {
        let h = hex_of(a);
        let n = h.len() as int;
        let (x, y) = (a.last(), b.last());
        lemma_hex_digit_value(x as int / 16);
        lemma_hex_digit_value(y as int / 16);
        lemma_hex_digit_value(x as int % 16);
        lemma_hex_digit_value(y as int % 16);
        assert(h[n - 2] == hex_alphabet()[x as int / 16]);
        assert(h[n - 2] == hex_alphabet()[y as int / 16]);
        assert(h[n - 1] == hex_alphabet()[x as int % 16]);
        assert(h[n - 1] == hex_alphabet()[y as int % 16]);
        assert(x == y);
        assert(hex_of(a.drop_last()) =~= h.subrange(0, n - 2));
        assert(hex_of(b.drop_last()) =~= h.subrange(0, n - 2));
        lemma_hex_injective(a.drop_last(), b.drop_last());
        assert(a =~= a.drop_last().push(x));
        assert(b =~= b.drop_last().push(y));
    }
}

/// A response body names its hash result: two queries that resolve the same
/// hash result answer with the same body, and two that answer with the same
/// body resolved the same hash result.
pub proof fn lemma_body_determines_result(a: Option<Seq<u8>>, b: Option<Seq<u8>>)
    ensures
        body_text(a) == body_text(b) <==> a == b,
{
    if body_text(a) == body_text(b) {
        let t = body_text(a);
        match (a, b) {
            (Some(x), Some(y)) => {
                lemma_hex_len(x);
                lemma_hex_len(y);
                let n = t.len() as int;
                assert(t.subrange(13, n - 1) =~= hex_of(x));
                assert(body_text(b).subrange(13, n - 1) =~= hex_of(y));
                lemma_hex_injective(x, y);
            },
            (Some(x), None) => {
                lemma_hex_len(x);
            },
            (None, Some(y)) => {
                lemma_hex_len(y);
            },
            (None, None) => {},
        }
    }
}

/// Appends the hex digits of `bytes` to `out`.
fn append_hex(out: &mut String, bytes: &[u8; 32])
    ensures
        final(out)@ == old(out)@ + hex_of(bytes@),
{
    let digits = "0123456789abcdef";
    proof {
        reveal_strlit("0123456789abcdef");
    }
    assert(digits@ =~= hex_alphabet());
    let mut i: usize = 0;
    while i < 32
        invariant
            i <= 32,
            bytes@.len() == 32,
            digits@ == hex_alphabet(),
            digits.is_ascii(),
            out@ == old(out)@ + hex_of(bytes@.subrange(0, i as int)),
        decreases 32 - i,
    {
        let x: u8 = bytes[i];
        let hi: usize = (x / 16) as usize;
        let lo: usize = (x % 16) as usize;
        out.append(digits.substring_ascii(hi, hi + 1));
        out.append(digits.substring_ascii(lo, lo + 1));
        proof {
            let prefix = bytes@.subrange(0, i as int + 1);
            assert(prefix.drop_last() =~= bytes@.subrange(0, i as int));
            assert(prefix.last() == x);
            assert(out@ =~= old(out)@ + hex_of(prefix));
        }
        i = i + 1;
    }
    assert(bytes@.subrange(0, 32) =~= bytes@);
}

/// The debug form of a hash: `0x` followed by 64 lower-case hex digits.
pub fn hash_string(h: &BlockHash) -> (s: String)
    ensures
        s@ == hash_text(h@),
{
    let mut s = String::from_str("0x");
    proof {
        reveal_strlit("0x");
    }
    append_hex(&mut s, &h.bytes);
    assert(s@ =~= hash_text(h@));
    s
}

/// The text body of a response for a hash result.
pub fn render_body(r: &Option<BlockHash>) -> (s: String)
    ensures
        s@ == body_text(hash_result_view(*r)),
{
    let mut s = String::from_str("Hash: ");
    proof {
        reveal_strlit("Hash: ");
    }
    assert(s@ =~= body_prefix());
    match r {
        None => {
            s.append("None");
            proof {
                reveal_strlit("None");
            }
            assert(s@ =~= body_text(hash_result_view(*r)));
        },
        Some(h) => {
            s.append("Some(");
            let text = hash_string(h);
            s.append(text.as_str());
            s.append(")");
            proof {
                reveal_strlit("Some(");
                reveal_strlit(")");
            }
            assert(s@ =~= body_text(hash_result_view(*r)));
        },
    }
    s
}

} // verus!
