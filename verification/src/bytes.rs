//! Byte-string helpers: comparison, membership, the comma-separated lists of
//! header values, trimming, and decimal numbers.
use vstd::prelude::*;
use crate::headers::is_header_value;
use vstd::string::StringSliceAdditionalSpecFns;

verus! {

/// The byte strings held by a list of byte vectors.
pub open spec fn byte_strings(v: Seq<Vec<u8>>) -> Seq<Seq<u8>> {
    v.map_values(|x: Vec<u8>| x@)
}

/// Bytes that `HeaderValue::to_str` accepts: visible ASCII and tab.
pub open spec fn is_visible_ascii(s: Seq<u8>) -> bool {
    forall|i: int| 0 <= i < s.len() ==> #[trigger] is_visible_byte(s[i])
}

/// A visible ASCII byte or a tab.
pub open spec fn is_visible_byte(b: u8) -> bool {
    (32 <= b && b < 127) || b == 9
}

/// An ASCII whitespace byte (what `str::trim` removes from ASCII text).
pub open spec fn is_space(b: u8) -> bool {
    b == 32 || (9 <= b && b <= 13)
}

/// The bytes without their leading whitespace.
pub open spec fn trim_start(s: Seq<u8>) -> Seq<u8>
    decreases s.len(),
{
    if s.len() > 0 && is_space(s[0]) {
        trim_start(s.drop_first())
    } else {
        s
    }
}

/// The bytes without their trailing whitespace.
pub open spec fn trim_end(s: Seq<u8>) -> Seq<u8>
    decreases s.len(),
{
    if s.len() > 0 && is_space(s.last()) {
        trim_end(s.drop_last())
    } else {
        s
    }
}

/// The bytes without leading and trailing whitespace.
pub open spec fn trim(s: Seq<u8>) -> Seq<u8> {
    trim_end(trim_start(s))
}

/// The pieces of the bytes between commas, as `str::split(',')` gives them:
/// one piece more than there are commas.
pub open spec fn split_commas(s: Seq<u8>) -> Seq<Seq<u8>>
    decreases s.len(),
{
    if s.len() == 0 {
        seq![Seq::<u8>::empty()]
    } else {
        let p = split_commas(s.drop_last());
        if s.last() == 44 {
            p.push(Seq::<u8>::empty())
        } else {
            p.update(p.len() - 1, p.last().push(s.last()))
        }
    }
}

/// The byte strings joined with `, ` between them.
pub open spec fn join_list(s: Seq<Seq<u8>>) -> Seq<u8>
    decreases s.len(),
{
    if s.len() == 0 {
        Seq::<u8>::empty()
    } else if s.len() == 1 {
        s[0]
    } else {
        join_list(s.drop_last()) + seq![44u8, 32u8] + s.last()
    }
}

/// The decimal digits of a number.
pub open spec fn decimal(n: nat) -> Seq<u8>
    decreases n,
{
    if n < 10 {
        seq![(48 + n) as u8]
    } else {
        decimal(n / 10).push((48 + n % 10) as u8)
    }
}

/// Whether two byte strings are equal.
pub fn bytes_eq(a: &[u8], b: &[u8]) -> (r: bool)
    ensures
        r == (a@ == b@),
{
    if a.len() != b.len() {
        return false;
    }
    let mut i: usize = 0;
    while i < a.len()
        invariant
            a@.len() == b@.len(),
            i <= a@.len(),
            forall|j: int| 0 <= j < i ==> a@[j] == b@[j],
        decreases a@.len() - i,
    {
        if a[i] != b[i] {
            return false;
        }
        i = i + 1;
    }
    assert(a@ =~= b@);
    true
}

/// Whether a byte string is in a list.
pub fn contains_bytes(list: &Vec<Vec<u8>>, item: &[u8]) -> (r: bool)
    ensures
        r == byte_strings(list@).contains(item@),
{
    let mut i: usize = 0;
    while i < list.len()
        invariant
            i <= list@.len(),
            forall|j: int| 0 <= j < i ==> list@[j]@ != item@,
        decreases list@.len() - i,
    {
        if bytes_eq(list[i].as_slice(), item) {
            assert(byte_strings(list@)[i as int] == item@);
            return true;
        }
        i = i + 1;
    }
    assert forall|j: int| 0 <= j < byte_strings(list@).len() implies byte_strings(list@)[j] != item@ by {
        assert(list@[j]@ != item@);
    }
    false
}

/// Appends bytes to a vector.
pub fn append_bytes(dst: &mut Vec<u8>, src: &[u8])
    ensures
        final(dst)@ == old(dst)@ + src@,
{
    let mut i: usize = 0;
    while i < src.len()
        invariant
            i <= src@.len(),
            dst@ == old(dst)@ + src@.take(i as int),
        decreases src@.len() - i,
    {
        dst.push(src[i]);
        i = i + 1;
        assert(src@.take(i as int) =~= src@.take(i - 1).push(src@[i - 1]));
    }
    assert(src@.take(src@.len() as int) =~= src@);
}

/// Whether the bytes are visible ASCII or tabs (what `HeaderValue::to_str`
/// accepts).
pub fn visible_ascii(s: &[u8]) -> (r: bool)
    ensures
        r == is_visible_ascii(s@),
{
    let mut i: usize = 0;
    while i < s.len()
        invariant
            i <= s@.len(),
            forall|j: int| 0 <= j < i ==> is_visible_byte(s@[j]),
        decreases s@.len() - i,
    {
        if !((32 <= s[i] && s[i] < 127) || s[i] == 9) {
            assert(!is_visible_byte(s@[i as int]));
            return false;
        }
        i = i + 1;
    }
    true
}

/// The comma-separated pieces of a byte string.
pub fn split_on_commas(s: &[u8]) -> (r: Vec<Vec<u8>>)
    ensures
        byte_strings(r@) == split_commas(s@),
{
    let mut pieces: Vec<Vec<u8>> = Vec::new();
    let mut cur: Vec<u8> = Vec::new();
    let mut i: usize = 0;
    assert(s@.take(0) =~= Seq::<u8>::empty());
    assert(byte_strings(pieces@).push(cur@) =~= split_commas(s@.take(0)));
    while i < s.len()
        invariant
            i <= s@.len(),
            byte_strings(pieces@).push(cur@) == split_commas(s@.take(i as int)),
        decreases s@.len() - i,
    {
        let ghost before = split_commas(s@.take(i as int));
        assert(s@.take(i + 1).drop_last() =~= s@.take(i as int));
        assert(s@.take(i + 1).last() == s@[i as int]);
        if s[i] == 44 {
            let done = cur;
            pieces.push(done);
            cur = Vec::new();
            assert(byte_strings(pieces@).push(cur@) =~= before.push(Seq::<u8>::empty()));
        } else {
            cur.push(s[i]);
            assert(byte_strings(pieces@).push(cur@) =~= before.update(
                before.len() - 1,
                before.last().push(s@[i as int]),
            ));
        }
        i = i + 1;
    }
    pieces.push(cur);
    assert(s@.take(s@.len() as int) =~= s@);
    assert(byte_strings(pieces@) =~= split_commas(s@));
    pieces
}

proof fn lemma_trim_start_skip(s: Seq<u8>, i: int)
    requires
        0 <= i <= s.len(),
        forall|j: int| 0 <= j < i ==> is_space(s[j]),
    ensures
        trim_start(s) == trim_start(s.subrange(i, s.len() as int)),
    decreases i,
{
    if i > 0 {
        assert(s.drop_first().subrange(i - 1, s.drop_first().len() as int) =~= s.subrange(
            i,
            s.len() as int,
        ));
        lemma_trim_start_skip(s.drop_first(), i - 1);
    } else {
        assert(s.subrange(0, s.len() as int) =~= s);
    }
}

proof fn lemma_trim_end_skip(s: Seq<u8>, j: int)
    requires
        0 <= j <= s.len(),
        forall|k: int| j <= k < s.len() ==> is_space(s[k]),
    ensures
        trim_end(s) == trim_end(s.subrange(0, j)),
    decreases s.len() - j,
{
    if j < s.len() {
        assert(s.drop_last().subrange(0, j) =~= s.subrange(0, j));
        lemma_trim_end_skip(s.drop_last(), j);
    } else {
        assert(s.subrange(0, s.len() as int) =~= s);
    }
}

/// The bytes without leading and trailing whitespace.
pub fn trim_bytes(s: &[u8]) -> (r: Vec<u8>)
    ensures
        r@ == trim(s@),
{
    let mut i: usize = 0;
    while i < s.len() && (s[i] == 32 || (9 <= s[i] && s[i] <= 13))
        invariant
            i <= s@.len(),
            forall|j: int| 0 <= j < i ==> is_space(s@[j]),
        decreases s@.len() - i,
    {
        i = i + 1;
    }
    let mut j: usize = s.len();
    while j > i && (s[j - 1] == 32 || (9 <= s[j - 1] && s[j - 1] <= 13))
        invariant
            i <= j <= s@.len(),
            forall|k: int| j <= k < s@.len() ==> is_space(s@[k]),
        decreases j,
    {
        j = j - 1;
    }
    let ghost rest = s@.subrange(i as int, s@.len() as int);
    proof {
        lemma_trim_start_skip(s@, i as int);
        assert(trim_start(rest) == rest);
        lemma_trim_end_skip(rest, j - i);
        assert(rest.subrange(0, j - i) =~= s@.subrange(i as int, j as int));
        let t = s@.subrange(i as int, j as int);
        assert(trim_end(t) == t);
    }
    let mut r: Vec<u8> = Vec::new();
    let mut k: usize = i;
    while k < j
        invariant
            i <= k <= j <= s@.len(),
            r@ == s@.subrange(i as int, k as int),
        decreases j - k,
    {
        r.push(s[k]);
        k = k + 1;
        assert(r@ =~= s@.subrange(i as int, k as int));
    }
    r
}

/// The byte strings joined with `, ` between them.
pub fn join_with_commas(list: &Vec<Vec<u8>>) -> (r: Vec<u8>)
    ensures
        r@ == join_list(byte_strings(list@)),
{
    let mut r: Vec<u8> = Vec::new();
    let mut i: usize = 0;
    assert(byte_strings(list@).take(0) =~= Seq::<Seq<u8>>::empty());
    while i < list.len()
        invariant
            i <= list@.len(),
            r@ == join_list(byte_strings(list@).take(i as int)),
        decreases list@.len() - i,
    {
        let ghost t = byte_strings(list@).take(i + 1);
        assert(t.drop_last() =~= byte_strings(list@).take(i as int));
        if i > 0 {
            append_bytes(&mut r, ", ".as_bytes());
            proof {
                reveal_strlit(", ");
                vstd::string::is_ascii_spec_bytes(", ");
            }
        }
        append_bytes(&mut r, list[i].as_slice());
        proof {
            if i == 0 {
                assert(t.len() == 1);
            } else {
                assert(", ".spec_bytes() =~= seq![44u8, 32u8]);
            }
        }
        i = i + 1;
    }
    assert(byte_strings(list@).take(list@.len() as int) =~= byte_strings(list@));
    r
}

/// A join of valid header values is a valid header value.
pub proof fn lemma_join_header_value(s: Seq<Seq<u8>>)
    requires
        forall|i: int| 0 <= i < s.len() ==> is_header_value(#[trigger] s[i]),
    ensures
        is_header_value(join_list(s)),
    decreases s.len(),
{
    if s.len() > 1 {
        lemma_join_header_value(s.drop_last());
        let a = join_list(s.drop_last());
        let b = a + seq![44u8, 32u8] + s.last();
        assert(is_header_value(s.last()));
        assert forall|i: int| 0 <= i < b.len() implies crate::headers::is_value_byte(b[i]) by {
            if i < a.len() {
                assert(b[i] == a[i]);
            } else if i < a.len() + 2 {
            } else {
                assert(b[i] == s.last()[i - a.len() - 2]);
            }
        }
    }
}

/// The decimal digits of a number.
pub fn decimal_bytes(n: usize) -> (r: Vec<u8>)
    ensures
        r@ == decimal(n as nat),
    decreases n,
{
    if n < 10 {
        let d: u8 = (48 + n) as u8;
        let mut r: Vec<u8> = Vec::new();
        r.push(d);
        assert(r@ =~= seq![(48 + n) as u8]);
        r
    } else {
        let mut r = decimal_bytes(n / 10);
        let d: u8 = (48 + n % 10) as u8;
        r.push(d);
        r
    }
}

/// Decimal digits make a valid header value.
pub proof fn lemma_decimal_header_value(n: nat)
    ensures
        is_header_value(decimal(n)),
        decimal(n).len() >= 1,
    decreases n,
{
    if n >= 10 {
        lemma_decimal_header_value(n / 10);
        let d = decimal(n);
        assert forall|i: int| 0 <= i < d.len() implies crate::headers::is_value_byte(d[i]) by {
            if i < d.len() - 1 {
                assert(d[i] == decimal(n / 10)[i]);
            }
        }
    }
}

} // verus!
