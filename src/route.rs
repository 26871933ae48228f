use vstd::prelude::*;

verus! {

/// Why a request path names no block.
#[derive(Clone, Copy, Debug, PartialEq, Eq)]
pub enum RouteError {
    /// The path is not one of the block routes.
    NotFound,
    /// The path has the shape of a block route, but its height segment is not
    /// an unsigned 32-bit decimal number.
    BadHeight,
}

/// The path of the latest-block route, without its optional trailing slash.
pub open spec fn block_path() -> Seq<char> {
    seq!['/', 'b', 'l', 'o', 'c', 'k']
}

/// The path with one trailing slash removed, if it ends with one.
pub open spec fn without_trailing_slash(p: Seq<char>) -> Seq<char> {
    if p.len() > 0 && p.last() == '/' {
        p.drop_last()
    } else {
        p
    }
}

/// An ASCII decimal digit.
pub open spec fn is_digit(c: char) -> bool {
    48 <= (c as u32) <= 57
}

/// The value of a string of decimal digits, most significant first.
pub open spec fn digits_value(s: Seq<char>) -> nat
    decreases s.len(),
{
    if s.len() == 0 {
        0
    } else {
        digits_value(s.drop_last()) * 10 + ((s.last() as u32) - 48) as nat
    }
}

/// The digits of a number segment: the segment without one leading `+`.
pub open spec fn unsigned_digits(seg: Seq<char>) -> Seq<char> {
    if seg.len() > 0 && seg[0] == '+' {
        seg.drop_first()
    } else {
        seg
    }
}

/// The block height a path segment denotes: an optional `+` and at least one
/// decimal digit, whose value fits in 32 bits.
pub open spec fn height_of(seg: Seq<char>) -> Option<u32> {
    let d = unsigned_digits(seg);
    if d.len() > 0 && (forall|i: int| 0 <= i < d.len() ==> is_digit(#[trigger] d[i]))
        && digits_value(d) <= u32::MAX {
        Some(digits_value(d) as u32)
    } else {
        None
    }
}

/// The block reference a request path asks for: `Ok(None)` for the latest
/// block (`/block`, `/block/`), `Ok(Some(n))` for block `n` (`/block/n`,
/// `/block/n/`).
pub open spec fn route_of(path: Seq<char>) -> Result<Option<u32>, RouteError> {
    let p = without_trailing_slash(path);
    if p == block_path() {
        Ok(None)
    } else if p.len() > 7 && p.subrange(0, 7) == block_path().push('/') && !p.subrange(
        7,
        p.len() as int,
    ).contains('/') {
        match height_of(p.subrange(7, p.len() as int)) {
            Some(n) => Ok(Some(n)),
            None => Err(RouteError::BadHeight),
        }
    } else {
        Err(RouteError::NotFound)
    }
}

/// Reads the height in `path[start..end]`, as `u32::from_str` does.
fn parse_height(path: &str, start: usize, end: usize) -> (r: Option<u32>)
    requires
        start <= end <= path@.len(),
    ensures
        r == height_of(path@.subrange(start as int, end as int)),
{
    let ghost seg = path@.subrange(start as int, end as int);
    let mut first: usize = start;
    if first < end && path.get_char(first) == '+' {
        first = first + 1;
    }
    let ghost d = path@.subrange(first as int, end as int);
    assert(d =~= unsigned_digits(seg));
    if first == end {
        return None;
    }
    let mut i: usize = first;
    let mut val: u64 = 0;
    while i < end
        invariant
            first <= i <= end <= path@.len(),
            first < end,
            seg == path@.subrange(start as int, end as int),
            d == unsigned_digits(seg),
            d == path@.subrange(first as int, end as int),
            forall|k: int| first <= k < i ==> is_digit(#[trigger] path@[k]),
            val == if digits_value(path@.subrange(first as int, i as int)) <= u32::MAX {
                digits_value(path@.subrange(first as int, i as int))
            } else {
                u32::MAX as nat + 1
            },
        decreases end - i,
    {
        let c = path.get_char(i);
        let code = c as u32;
        if code < 48 || code > 57 {
            assert(d[i - first] == path@[i as int]);
            assert(!is_digit(d[i - first]));
            return None;
        }
        let ghost before = path@.subrange(first as int, i as int);
        let ghost after = path@.subrange(first as int, i as int + 1);
        assert(after.drop_last() =~= before);
        assert(after.last() == c);
        let digit: u64 = (code - 48) as u64;
        if val <= u32::MAX as u64 {
            val = val * 10 + digit;
            if val > u32::MAX as u64 {
                val = u32::MAX as u64 + 1;
            }
        }
        i = i + 1;
    }
    assert(path@.subrange(first as int, i as int) =~= d);
    assert forall|k: int| 0 <= k < d.len() implies is_digit(#[trigger] d[k]) by {
        assert(d[k] == path@[first + k]);
    }
    if val > u32::MAX as u64 {
        None
    } else {
        Some(val as u32)
    }
}

/// The block reference that a request path asks for, or why it names none.
pub fn parse_route(path: &str) -> (r: Result<Option<u32>, RouteError>)
    ensures
        r == route_of(path@),
{
    let n = path.unicode_len();
    let end: usize = if n > 0 && path.get_char(n - 1) == '/' {
        n - 1
    } else {
        n
    };
    let ghost p = without_trailing_slash(path@);
    assert(p =~= path@.subrange(0, end as int));
    let root = end >= 6 && path.get_char(0) == '/' && path.get_char(1) == 'b' && path.get_char(2)
        == 'l' && path.get_char(3) == 'o' && path.get_char(4) == 'c' && path.get_char(5) == 'k';
    assert(root <==> (p.len() >= 6 && p.subrange(0, 6) =~= block_path()));
    if root && end == 6 {
        assert(p =~= block_path());
        return Ok(None);
    }
    assert(p != block_path());
    if !root || end <= 7 || path.get_char(6) != '/' {
        assert(!(p.len() > 7 && p.subrange(0, 7) == block_path().push('/'))) by {
            if p.len() > 7 && p.subrange(0, 7) == block_path().push('/') {
                assert(p.subrange(0, 6) =~= p.subrange(0, 7).subrange(0, 6));
                assert(block_path().push('/').subrange(0, 6) =~= block_path());
                assert(p[6] == p.subrange(0, 7)[6]);
                assert(block_path().push('/')[6] == '/');
            }
        }
        return Err(RouteError::NotFound);
    }
    assert(p.subrange(0, 7) =~= block_path().push('/')) by {
        assert(p.subrange(0, 7).subrange(0, 6) =~= p.subrange(0, 6));
    }
    let ghost seg = p.subrange(7, p.len() as int);
    assert(seg =~= path@.subrange(7, end as int));
    let mut j: usize = 7;
    while j < end
        invariant
            7 <= j <= end <= path@.len(),
            seg == path@.subrange(7, end as int),
            p == without_trailing_slash(path@),
            p != block_path(),
            p.len() > 7,
            p.subrange(0, 7) == block_path().push('/'),
            seg == p.subrange(7, p.len() as int),
            forall|k: int| 7 <= k < j ==> path@[k] != '/',
        decreases end - j,
    {
        if path.get_char(j) == '/' {
            assert(seg[j - 7] == '/');
            assert(seg.contains('/'));
            return Err(RouteError::NotFound);
        }
        j = j + 1;
    }
    assert(!seg.contains('/')) by {
        if seg.contains('/') {
            let k = choose|k: int| 0 <= k < seg.len() && seg[k] == '/';
            assert(path@[k + 7] == '/');
        }
    }
    match parse_height(path, 7, end) {
        Some(h) => Ok(Some(h)),
        None => Err(RouteError::BadHeight),
    }
}

/// A path and the same path with one slash appended are the same route:
/// `/block` and `/block/` both ask for the latest block, `/block/5` and
/// `/block/5/` both for block 5, and so for every path that does not already
/// end with a slash.
pub proof fn lemma_trailing_slash_equivalent(path: Seq<char>)
    requires
        path.len() == 0 || path.last() != '/',
    ensures
        route_of(path.push('/')) == route_of(path),
{
    assert(path.push('/').drop_last() =~= path);
}

} // verus!
