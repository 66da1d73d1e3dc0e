use vstd::prelude::*;
use vstd::relations::*;
use vstd::string::StrSliceExecFns;
use vstd::string::StringExecFns;
use vstd::utf8::*;

verus! {

broadcast use vstd::utf8::group_utf8_lib;

/// Two character sequences are equal exactly when their UTF-8 encodings are.
pub proof fn lemma_encode_utf8_injective(a: Seq<char>, b: Seq<char>)
    ensures
        (encode_utf8(a) == encode_utf8(b)) <==> (a == b),
{
    if encode_utf8(a) == encode_utf8(b) {
        assert(decode_utf8(encode_utf8(a)) == a);
        assert(decode_utf8(encode_utf8(b)) == b);
    }
}

/// Whether two string slices hold the same characters, compared byte by byte.
pub fn str_eq(a: &str, b: &str) -> (r: bool)
    ensures
        r == (a@ == b@),
{
    let ab = a.as_bytes();
    let bb = b.as_bytes();
    proof {
        lemma_encode_utf8_injective(a@, b@);
    }
    if ab.len() != bb.len() {
        return false;
    }
    let n = ab.len();
    let mut i: usize = 0;
    while i < n
        invariant
            n == ab@.len(),
            n == bb@.len(),
            ab@ == encode_utf8(a@),
            bb@ == encode_utf8(b@),
            i <= n,
            forall|j: int| 0 <= j < i ==> ab@[j] == bb@[j],
        decreases n - i,
    {
        if ab[i] != bb[i] {
            return false;
        }
        i = i + 1;
    }
    assert(ab@ =~= bb@);
    true
}

/// Unicode's `White_Space` property, the characters that trimming removes.
pub open spec fn is_space(c: char) -> bool {
    ||| ('\u{9}' <= c <= '\u{d}')
    ||| c == ' '
    ||| c == '\u{85}'
    ||| c == '\u{a0}'
    ||| c == '\u{1680}'
    ||| ('\u{2000}' <= c <= '\u{200a}')
    ||| c == '\u{2028}'
    ||| c == '\u{2029}'
    ||| c == '\u{202f}'
    ||| c == '\u{205f}'
    ||| c == '\u{3000}'
}

/// The number of white-space characters at the start of `s`.
pub open spec fn leading_spaces(s: Seq<char>) -> nat
    decreases s.len(),
{
    if s.len() > 0 && is_space(s[0]) {
        1 + leading_spaces(s.drop_first())
    } else {
        0
    }
}

/// The number of white-space characters at the end of `s`.
pub open spec fn trailing_spaces(s: Seq<char>) -> nat
    decreases s.len(),
{
    if s.len() > 0 && is_space(s.last()) {
        1 + trailing_spaces(s.drop_last())
    } else {
        0
    }
}

/// `s` without its leading and trailing white space.
pub open spec fn trimmed(s: Seq<char>) -> Seq<char> {
    let t = s.skip(leading_spaces(s) as int);
    t.take(t.len() - trailing_spaces(t))
}

pub fn is_whitespace(c: char) -> (r: bool)
    ensures
        r == is_space(c),
{
    ('\u{9}' <= c && c <= '\u{d}') || c == ' ' || c == '\u{85}' || c == '\u{a0}' || c == '\u{1680}'
        || ('\u{2000}' <= c && c <= '\u{200a}') || c == '\u{2028}' || c == '\u{2029}'
        || c == '\u{202f}' || c == '\u{205f}' || c == '\u{3000}'
}

proof fn lemma_leading_spaces(s: Seq<char>, i: int)
    requires
        0 <= i <= s.len(),
        forall|j: int| 0 <= j < i ==> is_space(#[trigger] s[j]),
        i == s.len() || !is_space(s[i]),
    ensures
        leading_spaces(s) == i,
    decreases i,
{
    if i > 0 {
        lemma_leading_spaces(s.drop_first(), i - 1);
    }
}

proof fn lemma_trailing_spaces(s: Seq<char>, k: int)
    requires
        0 <= k <= s.len(),
        forall|j: int| s.len() - k <= j < s.len() ==> is_space(#[trigger] s[j]),
        k == s.len() || !is_space(s[s.len() - k - 1]),
    ensures
        trailing_spaces(s) == k,
    decreases k,
{
    if k > 0 {
        lemma_trailing_spaces(s.drop_last(), k - 1);
    }
}

/// The slice of `s` without leading and trailing white space.
pub fn trim(s: &str) -> (r: &str)
    ensures
        r@ == trimmed(s@),
{
    let n = s.unicode_len();
    let mut start: usize = 0;
    while start < n && is_whitespace(s.get_char(start))
        invariant
            n == s@.len(),
            start <= n,
            forall|j: int| 0 <= j < start ==> is_space(#[trigger] s@[j]),
        decreases n - start,
    {
        start = start + 1;
    }
    let mut end: usize = n;
    while end > start && is_whitespace(s.get_char(end - 1))
        invariant
            n == s@.len(),
            start <= end <= n,
            forall|j: int| end <= j < n ==> is_space(#[trigger] s@[j]),
        decreases end,
    {
        end = end - 1;
    }
    proof {
        lemma_leading_spaces(s@, start as int);
        let t = s@.skip(start as int);
        assert forall|j: int| t.len() - (n - end) <= j < t.len() implies is_space(#[trigger] t[j]) by {
            assert(t[j] == s@[j + start]);
        }
        if end > start {
            assert(t[t.len() - (n - end) - 1] == s@[end - 1]);
        }
        lemma_trailing_spaces(t, (n - end) as int);
        assert(trimmed(s@) =~= s@.subrange(start as int, end as int));
    }
    s.substring_char(start, end)
}

/// The decimal digit for `d`, which is below ten.
pub open spec fn digit(d: nat) -> char {
    if d == 0 { '0' }
    else if d == 1 { '1' }
    else if d == 2 { '2' }
    else if d == 3 { '3' }
    else if d == 4 { '4' }
    else if d == 5 { '5' }
    else if d == 6 { '6' }
    else if d == 7 { '7' }
    else if d == 8 { '8' }
    else { '9' }
}

/// The decimal notation of `n`, without leading zeros.
pub open spec fn decimal(n: nat) -> Seq<char>
    decreases n,
{
    if n < 10 {
        seq![digit(n)]
    } else {
        decimal(n / 10).push(digit(n % 10))
    }
}

/// The decimal notation of a signed integer: a minus sign before the digits of a negative one.
pub open spec fn signed_decimal(n: int) -> Seq<char> {
    if n < 0 {
        seq!['-'] + decimal((-n) as nat)
    } else {
        decimal(n as nat)
    }
}

fn digit_str(d: u64) -> (r: &'static str)
    requires
        d < 10,
    ensures
        r@ == seq![digit(d as nat)],
{
    proof {
        reveal_strlit("0");
        reveal_strlit("1");
        reveal_strlit("2");
        reveal_strlit("3");
        reveal_strlit("4");
        reveal_strlit("5");
        reveal_strlit("6");
        reveal_strlit("7");
        reveal_strlit("8");
        reveal_strlit("9");
    }
    if d == 0 { "0" }
    else if d == 1 { "1" }
    else if d == 2 { "2" }
    else if d == 3 { "3" }
    else if d == 4 { "4" }
    else if d == 5 { "5" }
    else if d == 6 { "6" }
    else if d == 7 { "7" }
    else if d == 8 { "8" }
    else { "9" }
}

/// Appends the decimal notation of `n` to `out`.
pub fn push_decimal(out: &mut String, n: u64)
    ensures
        final(out)@ == old(out)@ + decimal(n as nat),
    decreases n,
{
    if n >= 10 {
        push_decimal(out, n / 10);
    }
    out.append(digit_str(n % 10));
    proof {
        if n >= 10 {
            assert(decimal(n as nat) == decimal((n / 10) as nat).push(digit((n % 10) as nat)));
        }
    }
}

/// Appends the decimal notation of the signed integer `n` to `out`.
pub fn push_signed_decimal(out: &mut String, n: i64)
    ensures
        final(out)@ == old(out)@ + signed_decimal(n as int),
{
    if n < 0 {
        proof {
            reveal_strlit("-");
        }
        out.append("-");
        let magnitude: u64 = if n == i64::MIN {
            9223372036854775808u64
        } else {
            (-n) as u64
        };
        push_decimal(out, magnitude);
    } else {
        push_decimal(out, n as u64);
    }
}

/// What follows text that was cut short.
pub const TRUNCATION_MARKER: &'static str = "\n[... truncated ...]";

/// The largest character boundary of `bytes` that is at most `max`.
pub open spec fn floor_char_boundary(bytes: Seq<u8>, max: int) -> int
    decreases max,
{
    if max <= 0 {
        0
    } else if is_char_boundary(bytes, max) {
        max
    } else {
        floor_char_boundary(bytes, max - 1)
    }
}

/// `s` cut to at most `max` bytes of UTF-8, at a character boundary, with the
/// truncation marker after it; `s` itself when it fits.
pub open spec fn truncated(s: Seq<char>, max: nat) -> Seq<char> {
    let bytes = encode_utf8(s);
    if bytes.len() > max {
        decode_utf8(bytes.subrange(0, floor_char_boundary(bytes, max as int))) + TRUNCATION_MARKER@
    } else {
        s
    }
}

proof fn lemma_floor_char_boundary(bytes: Seq<u8>, max: int)
    requires
        valid_utf8(bytes),
        0 <= max <= bytes.len(),
    ensures
        0 <= floor_char_boundary(bytes, max) <= max,
        is_char_boundary(bytes, floor_char_boundary(bytes, max)),
        forall|k: int|
            floor_char_boundary(bytes, max) < k <= max ==> !is_char_boundary(bytes, k),
    decreases max,
{
    if max > 0 && !is_char_boundary(bytes, max) {
        lemma_floor_char_boundary(bytes, max - 1);
    }
}

/// Truncation keeps text that fits, and otherwise keeps a prefix of the text
/// whose UTF-8 encoding is at most `max` bytes long, followed by the marker.
pub proof fn law_truncation_keeps_a_prefix(s: Seq<char>, max: nat)
    ensures
        encode_utf8(s).len() <= max ==> truncated(s, max) == s,
        encode_utf8(s).len() > max ==> exists|k: int|
            0 <= k < s.len() && truncated(s, max) == s.take(k) + TRUNCATION_MARKER@
                && encode_utf8(#[trigger] s.take(k)).len() <= max,
{
    let bytes = encode_utf8(s);
    if bytes.len() > max {
        let b = floor_char_boundary(bytes, max as int);
        lemma_floor_char_boundary(bytes, max as int);
        let head = decode_utf8(bytes.subrange(0, b));
        let tail = decode_utf8(bytes.subrange(b, bytes.len() as int));
        assert(decode_utf8(bytes) == s);
        assert(s =~= head + tail);
        assert(s.take(head.len() as int) =~= head);
        assert(valid_utf8(bytes.subrange(0, b)));
        assert(encode_utf8(head) == bytes.subrange(0, b));
        if head.len() == s.len() {
            assert(head =~= s);
            assert(encode_utf8(head).len() == bytes.len());
        }
    }
}

/// Cuts `s` to at most `max` bytes, backing up to the last character
/// boundary, and marks the cut; leaves `s` as it is when it fits.
pub fn truncate_to_bytes(s: String, max: usize) -> (r: String)
    ensures
        r@ == truncated(s@, max as nat),
{
    let ghost bytes = encode_utf8(s@);
    if s.as_str().as_bytes().len() <= max {
        return s;
    }
    let mut end: usize = max;
    while !s.as_str().is_char_boundary(end)
        invariant
            bytes == encode_utf8(s@),
            valid_utf8(bytes),
            max < bytes.len(),
            end <= max,
            floor_char_boundary(bytes, end as int) == floor_char_boundary(bytes, max as int),
        decreases end,
    {
        assert(end != 0);
        end = end - 1;
    }
    let (head, _tail) = s.as_str().split_at(end);
    let mut r = head.to_owned();
    assert(head@ == decode_utf8(bytes.subrange(0, end as int))) by {
        assert(decode_utf8(encode_utf8(head@)) == head@);
    }
    r.append(TRUNCATION_MARKER);
    r
}

/// Lexicographic order of byte strings, the order in which Rust compares strings.
pub open spec fn bytes_lt(a: Seq<u8>, b: Seq<u8>) -> bool
    decreases a.len(),
{
    if a.len() == 0 {
        b.len() > 0
    } else if b.len() == 0 {
        false
    } else if a[0] < b[0] {
        true
    } else if a[0] > b[0] {
        false
    } else {
        bytes_lt(a.drop_first(), b.drop_first())
    }
}

proof fn lemma_bytes_lt_irreflexive(a: Seq<u8>)
    ensures
        !bytes_lt(a, a),
    decreases a.len(),
{
    if a.len() > 0 {
        lemma_bytes_lt_irreflexive(a.drop_first());
    }
}

proof fn lemma_bytes_lt_transitive(a: Seq<u8>, b: Seq<u8>, c: Seq<u8>)
    requires
        bytes_lt(a, b),
        bytes_lt(b, c),
    ensures
        bytes_lt(a, c),
    decreases a.len(),
{
    if a.len() > 0 && b.len() > 0 && c.len() > 0 && a[0] == b[0] && b[0] == c[0] {
        lemma_bytes_lt_transitive(a.drop_first(), b.drop_first(), c.drop_first());
    }
}

proof fn lemma_bytes_lt_trichotomy(a: Seq<u8>, b: Seq<u8>)
    ensures
        bytes_lt(a, b) || bytes_lt(b, a) || a == b,
    decreases a.len(),
{
    if a.len() > 0 && b.len() > 0 && a[0] == b[0] {
        lemma_bytes_lt_trichotomy(a.drop_first(), b.drop_first());
        if a.drop_first() == b.drop_first() {
            assert(a =~= seq![a[0]] + a.drop_first());
            assert(b =~= seq![b[0]] + b.drop_first());
        }
    } else if a.len() == 0 && b.len() == 0 {
        assert(a =~= b);
    }
}

/// The order of texts by their UTF-8 bytes, as Rust orders strings.
pub open spec fn text_le(a: Seq<char>, b: Seq<char>) -> bool {
    !bytes_lt(encode_utf8(b), encode_utf8(a))
}

/// `text_le` as a relation.
pub open spec fn text_order() -> spec_fn(Seq<char>, Seq<char>) -> bool {
    |a: Seq<char>, b: Seq<char>| text_le(a, b)
}

/// The order of texts by their bytes is a total order.
pub proof fn lemma_text_order_total()
    ensures
        total_ordering(text_order()),
{
    let r = text_order();
    assert forall|x: Seq<char>| #[trigger] r(x, x) by {
        lemma_bytes_lt_irreflexive(encode_utf8(x));
    }
    assert forall|x: Seq<char>, y: Seq<char>| #[trigger] r(x, y) && #[trigger] r(y, x) implies x == y by {
        lemma_bytes_lt_trichotomy(encode_utf8(x), encode_utf8(y));
        lemma_encode_utf8_injective(x, y);
    }
    assert forall|x: Seq<char>, y: Seq<char>, z: Seq<char>| #[trigger] r(x, y) && #[trigger] r(y, z) implies r(x, z) by {
        let (ex, ey, ez) = (encode_utf8(x), encode_utf8(y), encode_utf8(z));
        lemma_bytes_lt_trichotomy(ex, ey);
        lemma_bytes_lt_trichotomy(ey, ez);
        if bytes_lt(ez, ex) {
            if bytes_lt(ex, ey) {
                lemma_bytes_lt_transitive(ez, ex, ey);
            } else {
                assert(ex == ey);
            }
        }
    }
    assert forall|x: Seq<char>, y: Seq<char>| #[trigger] r(x, y) || #[trigger] r(y, x) by {
        lemma_bytes_lt_trichotomy(encode_utf8(x), encode_utf8(y));
        if bytes_lt(encode_utf8(y), encode_utf8(x)) && bytes_lt(encode_utf8(x), encode_utf8(y)) {
            lemma_bytes_lt_transitive(encode_utf8(x), encode_utf8(y), encode_utf8(x));
            lemma_bytes_lt_irreflexive(encode_utf8(x));
        }
    }
}

/// Whether `a` comes before `b` in the byte order of strings.
pub fn str_lt(a: &str, b: &str) -> (r: bool)
    ensures
        r == bytes_lt(encode_utf8(a@), encode_utf8(b@)),
{
    let ab = a.as_bytes();
    let bb = b.as_bytes();
    let mut i: usize = 0;
    assert(ab@.skip(0) =~= ab@ && bb@.skip(0) =~= bb@);
    while i < ab.len() && i < bb.len() && ab[i] == bb[i]
        invariant
            ab@ == encode_utf8(a@),
            bb@ == encode_utf8(b@),
            i <= ab@.len(),
            i <= bb@.len(),
            bytes_lt(ab@, bb@) == bytes_lt(ab@.skip(i as int), bb@.skip(i as int)),
        decreases ab.len() - i,
    {
        assert(ab@.skip(i as int).drop_first() =~= ab@.skip(i + 1));
        assert(bb@.skip(i as int).drop_first() =~= bb@.skip(i + 1));
        i = i + 1;
    }
    if i == ab.len() {
        i < bb.len()
    } else if i == bb.len() {
        false
    } else {
        ab[i] < bb[i]
    }
}

/// The texts of a sequence of strings.
pub open spec fn texts(v: Seq<String>) -> Seq<Seq<char>> {
    v.map_values(|s: String| s@)
}

/// The strings sorted in the byte order of their texts.
pub fn sort_texts(items: Vec<String>) -> (r: Vec<String>)
    ensures
        texts(r@) == texts(items@).sort_by(text_order()),
{
    broadcast use vstd::seq_lib::group_to_multiset_ensures;
    broadcast use vstd::seq_lib::to_multiset_insert;
    broadcast use vstd::seq_lib::to_multiset_build;

    let ghost input_texts = texts(items@);
    let ghost leq = text_order();
    proof {
        lemma_text_order_total();
    }
    let mut rest = items;
    let mut out: Vec<String> = Vec::new();
    assert(texts(out@) =~= Seq::<Seq<char>>::empty());
    while rest.len() > 0
        invariant
            leq == text_order(),
            total_ordering(leq),
            sorted_by(texts(out@), leq),
            texts(out@).to_multiset().add(texts(rest@).to_multiset()) == input_texts.to_multiset(),
        decreases rest.len(),
    {
        let ghost before_rest = rest@;
        let x = rest.pop().unwrap();
        proof {
            assert(texts(before_rest) =~= texts(rest@).push(x@));
        }
        let mut j: usize = 0;
        while j < out.len() && !str_lt(x.as_str(), out[j].as_str())
            invariant
                j <= out@.len(),
                forall|k: int| 0 <= k < j ==> !bytes_lt(encode_utf8(x@), encode_utf8(#[trigger] out@[k]@)),
            decreases out.len() - j,
        {
            j = j + 1;
        }
        let ghost before = texts(out@);
        let ghost xv = x@;
        out.insert(j, x);
        proof {
            assert(texts(out@) =~= before.insert(j as int, xv));
            vstd::seq_lib::to_multiset_insert(before, j as int, xv);
            vstd::seq_lib::to_multiset_build(texts(rest@), xv);
            broadcast use vstd::multiset::group_multiset_axioms;
            assert(texts(out@).to_multiset().add(texts(rest@).to_multiset()) =~= before.to_multiset().add(
                texts(before_rest).to_multiset(),
            ));
            let now = texts(out@);
            assert forall|a: int, b: int| 0 <= a < b < now.len() implies #[trigger] leq(now[a], now[b]) by {
                if b < j {
                    assert(now[a] == before[a] && now[b] == before[b]);
                } else if a > j {
                    assert(now[a] == before[a - 1] && now[b] == before[b - 1]);
                } else if a == j {
                    // x comes before out[j], which comes no later than out[b - 1]
                    assert(now[a] == x@);
                    assert(now[b] == before[b - 1]);
                    assert(bytes_lt(encode_utf8(x@), encode_utf8(before[j as int])));
                    if b - 1 > j {
                        assert(leq(before[j as int], before[b - 1]));
                    }
                    if bytes_lt(encode_utf8(before[b - 1]), encode_utf8(x@)) {
                        lemma_bytes_lt_transitive(
                            encode_utf8(before[b - 1]),
                            encode_utf8(x@),
                            encode_utf8(before[j as int]),
                        );
                        if b - 1 == j {
                            lemma_bytes_lt_irreflexive(encode_utf8(before[j as int]));
                        }
                    }
                } else if b > j {
                    assert(now[a] == before[a] && now[b] == before[b - 1]);
                } else {
                    // a < j == b
                    assert(now[a] == before[a]);
                    assert(now[b] == x@);
                    assert(!bytes_lt(encode_utf8(x@), encode_utf8(out@[a]@)));
                }
            }
        }
    }
    proof {
        broadcast use vstd::multiset::group_multiset_axioms;
        assert(texts(rest@) =~= Seq::<Seq<char>>::empty());
        assert(texts(rest@).to_multiset() =~= vstd::multiset::Multiset::empty());
        assert(texts(out@).to_multiset() =~= input_texts.to_multiset());
        input_texts.lemma_sort_by_ensures(leq);
        vstd::seq_lib::lemma_sorted_unique(texts(out@), input_texts.sort_by(leq), leq);
    }
    out
}

/// The parts one after the other, with `sep` between each two of them.
pub open spec fn joined(parts: Seq<Seq<char>>, sep: Seq<char>) -> Seq<char>
    decreases parts.len(),
{
    if parts.len() == 0 {
        Seq::empty()
    } else if parts.len() == 1 {
        parts[0]
    } else {
        joined(parts.drop_last(), sep) + sep + parts.last()
    }
}

/// The strings one after the other, with `sep` between each two of them.
pub fn join(parts: &Vec<String>, sep: &str) -> (r: String)
    ensures
        r@ == joined(texts(parts@), sep@),
{
    let mut r = String::new();
    let mut i: usize = 0;
    while i < parts.len()
        invariant
            i <= parts@.len(),
            r@ == joined(texts(parts@).take(i as int), sep@),
        decreases parts.len() - i,
    {
        if i > 0 {
            r.append(sep);
        }
        r.append(parts[i].as_str());
        proof {
            let t = texts(parts@).take(i + 1);
            assert(t.drop_last() =~= texts(parts@).take(i as int));
            assert(t.last() == parts@[i as int]@);
            if i == 0 {
                assert(r@ =~= parts@[0]@);
            }
        }
        i = i + 1;
    }
    assert(texts(parts@).take(parts@.len() as int) =~= texts(parts@));
    r
}

} // verus!
