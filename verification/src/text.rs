//! Character-level text utilities over `Seq<char>` models, with exact
//! specifications of the std string operations the library relies on.

use vstd::prelude::*;

verus! {

// ---------------------------------------------------------------------------
// Conversions between `str`/`String` and character vectors.
// ---------------------------------------------------------------------------

/// Collects the characters of a string slice (std `str::chars` + `collect`).
#[verifier::external_body]
pub(crate) fn chars_of(s: &str) -> (r: Vec<char>)
    ensures
        r@ == s@,
{
    s.chars().collect()
}

/// Builds a `String` from characters (std `FromIterator<char> for String`).
#[verifier::external_body]
pub(crate) fn string_of(v: &Vec<char>) -> (r: String)
    ensures
        r@ == v@,
{
    v.iter().collect()
}

// ---------------------------------------------------------------------------
// Character classes.
// ---------------------------------------------------------------------------

/// Unicode `White_Space`, the set `char::is_whitespace` tests.
pub open spec fn is_ws(c: char) -> bool {
    let n = c as u32;
    n == 9 || n == 10 || n == 11 || n == 12 || n == 13 || n == 32 || n == 0x85 || n == 0xA0
        || n == 0x1680 || (0x2000 <= n && n <= 0x200A) || n == 0x2028 || n == 0x2029 || n
        == 0x202F || n == 0x205F || n == 0x3000
}

/// `char::is_whitespace`.
pub fn is_whitespace(c: char) -> (r: bool)
    ensures
        r == is_ws(c),
{
    let n = c as u32;
    n == 9 || n == 10 || n == 11 || n == 12 || n == 13 || n == 32 || n == 0x85 || n == 0xA0
        || n == 0x1680 || (0x2000 <= n && n <= 0x200A) || n == 0x2028 || n == 0x2029 || n
        == 0x202F || n == 0x205F || n == 0x3000
}

pub open spec fn is_ascii_upper(c: char) -> bool {
    65 <= (c as u32) && (c as u32) <= 90
}

pub open spec fn is_ascii_digit_spec(c: char) -> bool {
    48 <= (c as u32) && (c as u32) <= 57
}

pub open spec fn is_ascii_alnum(c: char) -> bool {
    let n = c as u32;
    (48 <= n && n <= 57) || (65 <= n && n <= 90) || (97 <= n && n <= 122)
}

/// `char::to_ascii_lowercase`.
pub open spec fn lower_char(c: char) -> char {
    if is_ascii_upper(c) {
        ((c as u32) + 32) as char
    } else {
        c
    }
}

pub fn to_lower_char(c: char) -> (r: char)
    ensures
        r == lower_char(c),
{
    if 65 <= (c as u32) && (c as u32) <= 90 {
        ((c as u8) + 32) as char
    } else {
        c
    }
}

/// `str::to_ascii_lowercase` on a character sequence.
pub open spec fn lower(s: Seq<char>) -> Seq<char> {
    Seq::new(s.len(), |i: int| lower_char(s[i]))
}

pub fn to_lower(s: &Vec<char>) -> (r: Vec<char>)
    ensures
        r@ == lower(s@),
{
    let mut r: Vec<char> = Vec::new();
    for i in 0..s.len()
        invariant
            r@ == lower(s@.take(i as int)),
    {
        r.push(to_lower_char(s[i]));
        assert(r@ =~= lower(s@.take(i + 1)));
    }
    assert(s@.take(s.len() as int) =~= s@);
    r
}

/// Appends a text to a `String` (std `String::push_str`).
#[verifier::external_body]
pub(crate) fn push_text(s: &mut String, t: &str)
    ensures
        final(s)@ == old(s)@ + t@,
{
    s.push_str(t);
}

/// Views of a vector of character vectors.
pub open spec fn vv(r: Seq<Vec<char>>) -> Seq<Seq<char>> {
    r.map_values(|v: Vec<char>| v@)
}

/// Copies the characters `s[a..b]`.
pub fn slice_chars(s: &Vec<char>, a: usize, b: usize) -> (r: Vec<char>)
    requires
        a <= b <= s.len(),
    ensures
        r@ == s@.subrange(a as int, b as int),
{
    let mut r: Vec<char> = Vec::new();
    let mut i = a;
    while i < b
        invariant
            a <= i <= b <= s.len(),
            r@ == s@.subrange(a as int, i as int),
        decreases b - i,
    {
        r.push(s[i]);
        i += 1;
        assert(r@ =~= s@.subrange(a as int, i as int));
    }
    r
}

/// Appends all characters of `t` to `r`.
pub fn extend_chars(r: &mut Vec<char>, t: &Vec<char>)
    ensures
        final(r)@ == old(r)@ + t@,
{
    let ghost r0 = r@;
    for i in 0..t.len()
        invariant
            r@ == r0 + t@.take(i as int),
    {
        r.push(t[i]);
        assert(r@ =~= r0 + t@.take(i + 1));
    }
    assert(t@.take(t.len() as int) =~= t@);
}

/// Appends the characters of a string slice to `r`.
pub fn extend_str(r: &mut Vec<char>, t: &str)
    ensures
        final(r)@ == old(r)@ + t@,
{
    let v = chars_of(t);
    extend_chars(r, &v);
}

// ---------------------------------------------------------------------------
// Trimming.
// ---------------------------------------------------------------------------

/// `str::trim_start`.
pub open spec fn trim_start(s: Seq<char>) -> Seq<char>
    decreases s.len(),
{
    if s.len() > 0 && is_ws(s[0]) {
        trim_start(s.drop_first())
    } else {
        s
    }
}

/// `str::trim_end`.
pub open spec fn trim_end(s: Seq<char>) -> Seq<char>
    decreases s.len(),
{
    if s.len() > 0 && is_ws(s.last()) {
        trim_end(s.drop_last())
    } else {
        s
    }
}

/// `str::trim`.
pub open spec fn trim(s: Seq<char>) -> Seq<char> {
    trim_end(trim_start(s))
}

/// What `trim_start` keeps is a suffix of the text that does not begin with
/// whitespace.
pub proof fn lemma_trim_start_shape(s: Seq<char>)
    ensures
        trim_start(s).len() <= s.len(),
        trim_start(s) == s.skip(s.len() - trim_start(s).len()),
        trim_start(s).len() > 0 ==> !is_ws(trim_start(s)[0]),
    decreases s.len(),
{
    if s.len() > 0 && is_ws(s[0]) {
        lemma_trim_start_shape(s.drop_first());
        assert(s.drop_first().skip(s.drop_first().len() - trim_start(s).len()) =~= s.skip(
            s.len() - trim_start(s).len(),
        ));
    } else {
        assert(s.skip(0) =~= s);
    }
}

/// What `trim_end` keeps is a prefix of the text that does not end with
/// whitespace.
pub proof fn lemma_trim_end_shape(s: Seq<char>)
    ensures
        trim_end(s).len() <= s.len(),
        trim_end(s) == s.take(trim_end(s).len() as int),
        trim_end(s).len() > 0 ==> !is_ws(trim_end(s).last()),
    decreases s.len(),
{
    if s.len() > 0 && is_ws(s.last()) {
        lemma_trim_end_shape(s.drop_last());
        assert(s.drop_last().take(trim_end(s).len() as int) =~= s.take(trim_end(s).len() as int));
    } else {
        assert(s.take(s.len() as int) =~= s);
    }
}

/// A trimmed text neither begins nor ends with whitespace.
pub proof fn lemma_trim_shape(s: Seq<char>)
    ensures
        trim(s).len() > 0 ==> !is_ws(trim(s)[0]) && !is_ws(trim(s).last()),
{
    lemma_trim_start_shape(s);
    lemma_trim_end_shape(trim_start(s));
    if trim(s).len() > 0 {
        assert(trim(s)[0] == trim_start(s)[0]);
    }
}

/// Index of the first character that `trim_start` keeps.
pub fn trim_start_index(s: &Vec<char>) -> (i: usize)
    ensures
        i <= s.len(),
        s@.skip(i as int) == trim_start(s@),
{
    let n = s.len();
    let mut i: usize = 0;
    assert(s@.skip(0) =~= s@);
    while i < n && is_whitespace(s[i])
        invariant
            i <= n == s.len(),
            trim_start(s@) == trim_start(s@.skip(i as int)),
        decreases n - i,
    {
        assert(s@.skip(i as int).drop_first() =~= s@.skip(i + 1));
        i += 1;
    }
    i
}

/// One past the last character that `trim_end` keeps of `s[..e]`.
pub fn trim_end_index(s: &Vec<char>, lo: usize, e: usize) -> (j: usize)
    requires
        lo <= e <= s.len(),
    ensures
        lo <= j <= e,
        s@.subrange(lo as int, j as int) == trim_end(s@.subrange(lo as int, e as int)),
{
    let mut j = e;
    while j > lo && is_whitespace(s[j - 1])
        invariant
            lo <= j <= e <= s.len(),
            trim_end(s@.subrange(lo as int, e as int)) == trim_end(
                s@.subrange(lo as int, j as int),
            ),
        decreases j,
    {
        assert(s@.subrange(lo as int, j as int).drop_last() =~= s@.subrange(
            lo as int,
            j - 1,
        ));
        j -= 1;
    }
    j
}

pub fn trim_chars(s: &Vec<char>) -> (r: Vec<char>)
    ensures
        r@ == trim(s@),
{
    let i = trim_start_index(s);
    assert(s@.skip(i as int) =~= s@.subrange(i as int, s.len() as int));
    let j = trim_end_index(s, i, s.len());
    slice_chars(s, i, j)
}

pub fn trim_start_chars(s: &Vec<char>) -> (r: Vec<char>)
    ensures
        r@ == trim_start(s@),
{
    let i = trim_start_index(s);
    assert(s@.skip(i as int) =~= s@.subrange(i as int, s.len() as int));
    slice_chars(s, i, s.len())
}

pub fn trim_end_chars(s: &Vec<char>) -> (r: Vec<char>)
    ensures
        r@ == trim_end(s@),
{
    assert(s@.subrange(0, s.len() as int) =~= s@);
    let j = trim_end_index(s, 0, s.len());
    slice_chars(s, 0, j)
}

// ---------------------------------------------------------------------------
// Whitespace-separated words and joining.
// ---------------------------------------------------------------------------

/// `str::split_whitespace`: the maximal runs of non-whitespace characters.
pub open spec fn words(s: Seq<char>) -> Seq<Seq<char>>
    decreases s.len(),
{
    if s.len() == 0 {
        seq![]
    } else {
        let p = s.drop_last();
        let c = s.last();
        let w = words(p);
        if is_ws(c) {
            w
        } else if p.len() > 0 && !is_ws(p.last()) {
            w.update(w.len() - 1, w.last().push(c))
        } else {
            w.push(seq![c])
        }
    }
}

pub proof fn lemma_words_nonempty(s: Seq<char>)
    requires
        s.len() > 0,
        !is_ws(s.last()),
    ensures
        words(s).len() > 0,
    decreases s.len(),
{
    let p = s.drop_last();
    if p.len() > 0 && !is_ws(p.last()) {
        lemma_words_nonempty(p);
    }
}

/// Every word is non-empty and holds no whitespace.
pub proof fn lemma_words_shape(s: Seq<char>)
    ensures
        forall|k: int|
            0 <= k < words(s).len() ==> #[trigger] words(s)[k].len() > 0 && (forall|j: int|
                0 <= j < words(s)[k].len() ==> !is_ws(#[trigger] words(s)[k][j])),
    decreases s.len(),
{
    if s.len() > 0 {
        let p = s.drop_last();
        lemma_words_shape(p);
        if !is_ws(s.last()) && p.len() > 0 && !is_ws(p.last()) {
            lemma_words_nonempty(p);
        }
    }
}

pub fn split_whitespace(s: &Vec<char>) -> (r: Vec<Vec<char>>)
    ensures
        vv(r@) == words(s@),
{
    let mut r: Vec<Vec<char>> = Vec::new();
    for i in 0..s.len()
        invariant
            vv(r@) == words(s@.take(i as int)),
    {
        let c = s[i];
        let ghost t = s@.take(i + 1);
        assert(t.drop_last() =~= s@.take(i as int));
        if is_whitespace(c) {
        } else if i > 0 && !is_whitespace(s[i - 1]) {
            proof {
                lemma_words_nonempty(s@.take(i as int));
            }
            let last = r.pop();
            match last {
                Some(mut w) => {
                    w.push(c);
                    r.push(w);
                    assert(vv(r@) =~= words(t));
                },
                None => {
                    assert(false);
                },
            }
        } else {
            let mut w: Vec<char> = Vec::new();
            w.push(c);
            r.push(w);
            assert(vv(r@) =~= words(t));
        }
    }
    assert(s@.take(s.len() as int) =~= s@);
    r
}

/// `[T]::join` on character sequences.
pub open spec fn join(list: Seq<Seq<char>>, sep: Seq<char>) -> Seq<char>
    decreases list.len(),
{
    if list.len() == 0 {
        seq![]
    } else if list.len() == 1 {
        list[0]
    } else {
        join(list.drop_last(), sep) + sep + list.last()
    }
}

pub fn join_chars(list: &Vec<Vec<char>>, sep: &Vec<char>) -> (r: Vec<char>)
    ensures
        r@ == join(vv(list@), sep@),
{
    let mut r: Vec<char> = Vec::new();
    for i in 0..list.len()
        invariant
            r@ == join(vv(list@).take(i as int), sep@),
    {
        let ghost l = vv(list@).take(i + 1);
        assert(l.drop_last() =~= vv(list@).take(i as int));
        if i > 0 {
            extend_chars(&mut r, sep);
        }
        extend_chars(&mut r, &list[i]);
        proof {
            if i == 0 {
                assert(r@ =~= l[0]);
            }
        }
    }
    assert(vv(list@).take(list.len() as int) =~= vv(list@));
    r
}

/// Words re-joined by single spaces (`split_whitespace().collect().join(" ")`).
pub open spec fn squash_ws(s: Seq<char>) -> Seq<char> {
    join(words(s), seq![' '])
}

pub fn squash_whitespace(s: &Vec<char>) -> (r: Vec<char>)
    ensures
        r@ == squash_ws(s@),
{
    let w = split_whitespace(s);
    let mut sep: Vec<char> = Vec::new();
    sep.push(' ');
    assert(sep@ =~= seq![' ']);
    join_chars(&w, &sep)
}

// ---------------------------------------------------------------------------
// Searching.
// ---------------------------------------------------------------------------

pub open spec fn occurs_at(h: Seq<char>, n: Seq<char>, i: int) -> bool {
    0 <= i && i + n.len() <= h.len() && h.subrange(i, i + n.len()) == n
}

/// `str::contains` with a string pattern.
pub open spec fn contains(h: Seq<char>, n: Seq<char>) -> bool {
    exists|i: int| occurs_at(h, n, i)
}

/// `str::starts_with` with a string pattern.
pub open spec fn starts_with(h: Seq<char>, n: Seq<char>) -> bool {
    occurs_at(h, n, 0)
}

/// `str::ends_with` with a string pattern.
pub open spec fn ends_with(h: Seq<char>, n: Seq<char>) -> bool {
    occurs_at(h, n, h.len() - n.len())
}

pub fn matches_at(h: &Vec<char>, n: &Vec<char>, i: usize) -> (r: bool)
    ensures
        r == occurs_at(h@, n@, i as int),
{
    if i > h.len() || n.len() > h.len() - i {
        return false;
    }
    let mut k: usize = 0;
    while k < n.len()
        invariant
            k <= n.len(),
            i + n.len() <= h.len(),
            forall|j: int| 0 <= j < k ==> h@[i + j] == n@[j],
        decreases n.len() - k,
    {
        if h[i + k] != n[k] {
            assert(h@.subrange(i as int, i + n.len())[k as int] != n@[k as int]);
            return false;
        }
        k += 1;
    }
    assert(h@.subrange(i as int, i + n.len()) =~= n@);
    true
}

pub fn contains_chars(h: &Vec<char>, n: &Vec<char>) -> (r: bool)
    ensures
        r == contains(h@, n@),
{
    if n.len() > h.len() {
        return false;
    }
    let last = h.len() - n.len();
    let mut i: usize = 0;
    loop
        invariant
            last == h.len() - n.len(),
            i <= last,
            forall|k: int| 0 <= k < i ==> !occurs_at(h@, n@, k),
        decreases last - i,
    {
        if matches_at(h, n, i) {
            return true;
        }
        if i == last {
            return false;
        }
        i += 1;
    }
}

pub fn starts_with_chars(h: &Vec<char>, n: &Vec<char>) -> (r: bool)
    ensures
        r == starts_with(h@, n@),
{
    matches_at(h, n, 0)
}

pub fn starts_with_str(h: &Vec<char>, n: &str) -> (r: bool)
    ensures
        r == starts_with(h@, n@),
{
    let v = chars_of(n);
    matches_at(h, &v, 0)
}

pub fn contains_str(h: &Vec<char>, n: &str) -> (r: bool)
    ensures
        r == contains(h@, n@),
{
    let v = chars_of(n);
    contains_chars(h, &v)
}

pub fn eq_chars(a: &Vec<char>, b: &Vec<char>) -> (r: bool)
    ensures
        r == (a@ == b@),
{
    if a.len() != b.len() {
        return false;
    }
    let r = matches_at(a, b, 0);
    proof {
        if r {
            assert(a@.subrange(0, b@.len() as int) =~= a@);
        } else {
            assert(a@.subrange(0, b@.len() as int) =~= a@);
        }
    }
    r
}

pub fn eq_str(a: &Vec<char>, b: &str) -> (r: bool)
    ensures
        r == (a@ == b@),
{
    let v = chars_of(b);
    eq_chars(a, &v)
}


// ---------------------------------------------------------------------------
// Numbers and encodings.
// ---------------------------------------------------------------------------

pub open spec fn digit_char(d: nat) -> char
    recommends
        d < 16,
{
    if d < 10 {
        ((48 + d) as u32) as char
    } else {
        ((87 + d) as u32) as char
    }
}

/// Decimal rendering of an unsigned integer (`Display` for the unsigned types).
pub open spec fn decimal(n: nat) -> Seq<char>
    decreases n,
{
    if n < 10 {
        seq![digit_char(n)]
    } else {
        decimal(n / 10).push(digit_char(n % 10))
    }
}

pub fn digit(d: u8) -> (c: char)
    requires
        d < 16,
    ensures
        c == digit_char(d as nat),
{
    if d < 10 {
        (48u8 + d) as char
    } else {
        (87u8 + d) as char
    }
}

pub fn decimal_chars(n: u128) -> (r: Vec<char>)
    ensures
        r@ == decimal(n as nat),
    decreases n,
{
    if n < 10 {
        let mut r: Vec<char> = Vec::new();
        r.push(digit(n as u8));
        assert(r@ =~= decimal(n as nat));
        r
    } else {
        let mut r = decimal_chars(n / 10);
        r.push(digit((n % 10) as u8));
        r
    }
}

/// Lowercase hexadecimal, two digits per byte.
pub open spec fn hex_bytes(b: Seq<u8>) -> Seq<char>
    decreases b.len(),
{
    if b.len() == 0 {
        seq![]
    } else {
        hex_bytes(b.drop_last()).push(digit_char((b.last() / 16) as nat)).push(
            digit_char((b.last() % 16) as nat),
        )
    }
}

pub fn hex_chars(b: &Vec<u8>, n: usize) -> (r: Vec<char>)
    requires
        n <= b.len(),
    ensures
        r@ == hex_bytes(b@.take(n as int)),
{
    let mut r: Vec<char> = Vec::new();
    for i in 0..n
        invariant
            n <= b.len(),
            r@ == hex_bytes(b@.take(i as int)),
    {
        let x = b[i];
        r.push(digit(x / 16));
        r.push(digit(x % 16));
        assert(b@.take(i + 1).drop_last() =~= b@.take(i as int));
    }
    r
}

/// Number of bytes of the UTF-8 encoding of a character (`char::len_utf8`).
pub open spec fn utf8_len(c: char) -> nat {
    let n = c as u32;
    if n < 0x80 {
        1
    } else if n < 0x800 {
        2
    } else if n < 0x10000 {
        3
    } else {
        4
    }
}

pub fn len_utf8(c: char) -> (r: usize)
    ensures
        r == utf8_len(c),
{
    let n = c as u32;
    if n < 0x80 {
        1
    } else if n < 0x800 {
        2
    } else if n < 0x10000 {
        3
    } else {
        4
    }
}

/// Byte length of the UTF-8 encoding of a character sequence (`str::len`).
pub open spec fn byte_len(s: Seq<char>) -> nat
    decreases s.len(),
{
    if s.len() == 0 {
        0
    } else {
        byte_len(s.drop_last()) + utf8_len(s.last())
    }
}

/// Number of leading characters of `s` that fit within `limit` bytes.
pub open spec fn bytes_prefix_count(s: Seq<char>, limit: nat) -> nat
    decreases s.len(),
{
    if s.len() == 0 {
        0
    } else if byte_len(s) <= limit {
        s.len()
    } else {
        bytes_prefix_count(s.drop_last(), limit)
    }
}

pub proof fn lemma_byte_len_prefix_mono(s: Seq<char>, i: int, j: int)
    requires
        0 <= i <= j <= s.len(),
    ensures
        byte_len(s.take(i)) <= byte_len(s.take(j)),
    decreases j - i,
{
    if i < j {
        lemma_byte_len_prefix_mono(s, i, j - 1);
        assert(s.take(j).drop_last() =~= s.take(j - 1));
    }
}

pub proof fn lemma_bytes_prefix_count(s: Seq<char>, limit: nat)
    ensures
        bytes_prefix_count(s, limit) <= s.len(),
        byte_len(s.take(bytes_prefix_count(s, limit) as int)) <= limit,
        bytes_prefix_count(s, limit) < s.len() ==> byte_len(
            s.take(bytes_prefix_count(s, limit) as int + 1),
        ) > limit,
    decreases s.len(),
{
    if s.len() == 0 {
        assert(s.take(0) =~= s);
    } else if byte_len(s) <= limit {
        assert(s.take(s.len() as int) =~= s);
    } else {
        let p = s.drop_last();
        lemma_bytes_prefix_count(p, limit);
        let k = bytes_prefix_count(p, limit);
        assert(p.take(k as int) =~= s.take(k as int));
        if k < p.len() {
            assert(p.take(k as int + 1) =~= s.take(k as int + 1));
        } else {
            assert(s.take(k as int + 1) =~= s);
        }
    }
}

/// The longest prefix of `s` whose UTF-8 encoding fits within `limit` bytes:
/// `&s[..end]` where `end` is the largest char boundary not above `limit`.
pub fn byte_prefix(s: &Vec<char>, limit: usize) -> (r: Vec<char>)
    ensures
        r@ == s@.take(bytes_prefix_count(s@, limit as nat) as int),
{
    proof {
        lemma_bytes_prefix_count(s@, limit as nat);
    }
    let mut r: Vec<char> = Vec::new();
    let mut used: usize = 0;
    let mut i: usize = 0;
    while i < s.len()
        invariant
            i <= s.len(),
            r@ == s@.take(i as int),
            used == byte_len(s@.take(i as int)),
            used <= limit,
        decreases s.len() - i,
    {
        let l = len_utf8(s[i]);
        assert(s@.take(i + 1).drop_last() =~= s@.take(i as int));
        if l > limit - used {
            proof {
                lemma_bytes_prefix_count(s@, limit as nat);
                let k = bytes_prefix_count(s@, limit as nat);
                if k > i {
                    lemma_byte_len_prefix_mono(s@, i + 1, k as int);
                }
                if k < i {
                    lemma_byte_len_prefix_mono(s@, k as int + 1, i as int);
                }
            }
            return r;
        }
        r.push(s[i]);
        used = used + l;
        i += 1;
    }
    proof {
        let k = bytes_prefix_count(s@, limit as nat);
        assert(s@.take(s.len() as int) =~= s@);
        if k < s.len() {
            lemma_byte_len_prefix_mono(s@, k as int + 1, s.len() as int);
        }
    }
    r
}


// ---------------------------------------------------------------------------
// Ordering.
// ---------------------------------------------------------------------------

/// Lexicographic order of character sequences by code point. For valid UTF-8
/// this is the byte order in which `String`'s `Ord` compares.
pub open spec fn lex_lt(a: Seq<char>, b: Seq<char>) -> bool
    decreases a.len(),
{
    if a.len() == 0 {
        b.len() > 0
    } else if b.len() == 0 {
        false
    } else if a[0] != b[0] {
        (a[0] as u32) < (b[0] as u32)
    } else {
        lex_lt(a.drop_first(), b.drop_first())
    }
}

pub proof fn lemma_lex_lt_transitive(a: Seq<char>, b: Seq<char>, c: Seq<char>)
    requires
        lex_lt(a, b),
        lex_lt(b, c),
    ensures
        lex_lt(a, c),
    decreases a.len(),
{
    if a.len() > 0 && b.len() > 0 && c.len() > 0 && a[0] == b[0] && b[0] == c[0] {
        lemma_lex_lt_transitive(a.drop_first(), b.drop_first(), c.drop_first());
    }
}

pub proof fn lemma_lex_lt_irreflexive(a: Seq<char>)
    ensures
        !lex_lt(a, a),
    decreases a.len(),
{
    if a.len() > 0 {
        lemma_lex_lt_irreflexive(a.drop_first());
    }
}

pub fn lex_less(a: &Vec<char>, b: &Vec<char>) -> (r: bool)
    ensures
        r == lex_lt(a@, b@),
{
    let mut i: usize = 0;
    assert(a@.skip(0) =~= a@);
    assert(b@.skip(0) =~= b@);
    loop
        invariant
            i <= a.len(),
            i <= b.len(),
            lex_lt(a@, b@) == lex_lt(a@.skip(i as int), b@.skip(i as int)),
        decreases a.len() - i,
    {
        if i == a.len() {
            return i < b.len();
        }
        if i == b.len() {
            return false;
        }
        if a[i] != b[i] {
            return (a[i] as u32) < (b[i] as u32);
        }
        assert(a@.skip(i as int).drop_first() =~= a@.skip(i + 1));
        assert(b@.skip(i as int).drop_first() =~= b@.skip(i + 1));
        i += 1;
    }
}


// ---------------------------------------------------------------------------
// Splitting on a character.
// ---------------------------------------------------------------------------

/// `str::split` with a character: the pieces between separators, empty ones
/// included.
pub open spec fn split_on(s: Seq<char>, d: char) -> Seq<Seq<char>>
    decreases s.len(),
{
    if s.len() == 0 {
        seq![seq![]]
    } else {
        let p = split_on(s.drop_last(), d);
        if s.last() == d {
            p.push(seq![])
        } else {
            p.update(p.len() - 1, p.last().push(s.last()))
        }
    }
}

pub proof fn lemma_split_on_len(s: Seq<char>, d: char)
    ensures
        split_on(s, d).len() >= 1,
    decreases s.len(),
{
    if s.len() > 0 {
        lemma_split_on_len(s.drop_last(), d);
    }
}

pub fn split_char(s: &Vec<char>, d: char) -> (r: Vec<Vec<char>>)
    ensures
        vv(r@) == split_on(s@, d),
        r@.len() >= 1,
{
    let mut r: Vec<Vec<char>> = Vec::new();
    r.push(Vec::new());
    assert(vv(r@) =~= split_on(s@.take(0), d));
    for i in 0..s.len()
        invariant
            vv(r@) == split_on(s@.take(i as int), d),
            r@.len() >= 1,
    {
        let c = s[i];
        let ghost t = s@.take(i + 1);
        assert(t.drop_last() =~= s@.take(i as int));
        if c == d {
            r.push(Vec::new());
            assert(vv(r@) =~= split_on(t, d));
        } else {
            let last = r.pop();
            match last {
                Some(mut w) => {
                    w.push(c);
                    r.push(w);
                    assert(vv(r@) =~= split_on(t, d));
                },
                None => {
                    assert(false);
                },
            }
        }
    }
    assert(s@.take(s.len() as int) =~= s@);
    r
}

// ---------------------------------------------------------------------------
// Unsigned decimal parsing.
// ---------------------------------------------------------------------------

pub open spec fn digit_value(c: char) -> nat {
    ((c as u32) - 48) as nat
}

pub open spec fn all_digits(s: Seq<char>) -> bool {
    forall|i: int| 0 <= i < s.len() ==> is_ascii_digit_spec(#[trigger] s[i])
}

pub open spec fn digits_value(s: Seq<char>) -> nat
    decreases s.len(),
{
    if s.len() == 0 {
        0
    } else {
        digits_value(s.drop_last()) * 10 + digit_value(s.last())
    }
}

/// `FromStr` for the unsigned integer type whose maximum is `max`: an
/// optional `+`, then at least one ASCII digit, with no overflow.
pub open spec fn parse_unsigned(s: Seq<char>, max: nat) -> Option<nat> {
    let d = if s.len() > 0 && s[0] == '+' {
        s.drop_first()
    } else {
        s
    };
    if d.len() > 0 && all_digits(d) && digits_value(d) <= max {
        Some(digits_value(d))
    } else {
        None
    }
}

pub proof fn lemma_digits_value_mono(s: Seq<char>, i: int)
    requires
        0 <= i <= s.len(),
    ensures
        digits_value(s.take(i)) <= digits_value(s),
    decreases s.len() - i,
{
    if i < s.len() {
        lemma_digits_value_mono(s, i + 1);
        assert(s.take(i + 1).drop_last() =~= s.take(i));
    } else {
        assert(s.take(i) =~= s);
    }
}

pub fn parse_unsigned_chars(s: &Vec<char>, max: u64) -> (r: Option<u64>)
    ensures
        match r {
            Some(v) => parse_unsigned(s@, max as nat) == Some(v as nat),
            None => parse_unsigned(s@, max as nat) is None,
        },
{
    let start: usize = if s.len() > 0 && s[0] == '+' {
        1
    } else {
        0
    };
    let ghost d = if s@.len() > 0 && s@[0] == '+' {
        s@.drop_first()
    } else {
        s@
    };
    assert(d =~= s@.skip(start as int));
    if start == s.len() {
        return None;
    }
    let mut value: u64 = 0;
    let mut i = start;
    while i < s.len()
        invariant
            start <= i <= s.len(),
            d == s@.skip(start as int),
            d == (if s@.len() > 0 && s@[0] == '+' {
                s@.drop_first()
            } else {
                s@
            }),
            all_digits(s@.subrange(start as int, i as int)),
            value == digits_value(s@.subrange(start as int, i as int)),
            value <= max,
        decreases s.len() - i,
    {
        let c = s[i];
        let n = c as u32;
        assert(s@.subrange(start as int, i + 1).drop_last() =~= s@.subrange(
            start as int,
            i as int,
        ));
        if n < 48 || n > 57 {
            assert(d[i - start] == c);
            assert(!is_ascii_digit_spec(d[i - start]));
            assert(!all_digits(d));
            return None;
        }
        let dv = (n - 48) as u64;
        if value > max / 10 || dv > max - value * 10 {
            proof {
                if value <= max / 10 {
                    assert(value * 10 <= max) by (nonlinear_arith)
                        requires
                            value <= max / 10,
                    ;
                } else {
                    assert(value * 10 > max) by (nonlinear_arith)
                        requires
                            value > max / 10,
                    ;
                }
                assert(all_digits(s@.subrange(start as int, i + 1)));
                assert(digits_value(s@.subrange(start as int, i + 1)) > max);
                if all_digits(d) {
                    assert(s@.subrange(start as int, i + 1) =~= d.take(i + 1 - start));
                    lemma_digits_value_mono(d, i + 1 - start);
                }
            }
            return None;
        }
        value = value * 10 + dv;
        i += 1;
        assert(all_digits(s@.subrange(start as int, i as int)));
    }
    assert(s@.subrange(start as int, s.len() as int) =~= d);
    Some(value)
}

} // verus!
