use vstd::prelude::*;
use vstd::utf8::*;
use vstd::string::StringSliceAdditionalSpecFns;
use vstd::string::StringExecFns;

verus! {

/// Number of bytes before the first zero byte of `b` (all of `b` when it holds none).
pub open spec fn cstr_len(b: Seq<u8>) -> nat
    decreases b.len(),
{
    if b.len() == 0 || b[0] == 0 {
        0
    } else {
        1 + cstr_len(b.drop_first())
    }
}

/// The bytes of a NUL-terminated buffer up to, not including, the first zero byte.
pub open spec fn cstr_prefix(b: Seq<u8>) -> Seq<u8> {
    b.take(cstr_len(b) as int)
}

/// The first zero byte of `b` is at `n` (or `b` has none and `n` is its length).
pub proof fn lemma_cstr_len_at(b: Seq<u8>, n: int)
    requires
        0 <= n <= b.len(),
        forall|j: int| 0 <= j < n ==> b[j] != 0,
        n == b.len() || b[n] == 0,
    ensures
        cstr_len(b) == n,
    decreases b.len(),
{
    if b.len() > 0 && b[0] != 0 {
        let t = b.drop_first();
        assert forall|j: int| 0 <= j < n - 1 implies t[j] != 0 by {
            assert(t[j] == b[j + 1]);
        }
        lemma_cstr_len_at(t, n - 1);
    }
}

/// What `String::from_utf8_lossy` yields for `bytes`.
pub uninterp spec fn utf8_lossy(bytes: Seq<u8>) -> Seq<char>;

/// The text of `bytes` as a lossy UTF-8 decoder reads it: the decoding when the bytes
/// are valid UTF-8, else what the decoder gives with its replacement characters.
pub open spec fn lossy_text(bytes: Seq<u8>) -> Seq<char> {
    if valid_utf8(bytes) {
        decode_utf8(bytes)
    } else {
        utf8_lossy(bytes)
    }
}

/// Calls `String::from_utf8_lossy`. Trusted: its result is the named `utf8_lossy` of the
/// bytes; as std documents, it is the plain decoding when the bytes are valid UTF-8, and
/// otherwise only invalid sequences are replaced (by U+FFFD), so bytes without a zero byte
/// give a text without a NUL character. Which bytes form one invalid sequence is left unsaid.
#[verifier::external_body]
pub(crate) fn decode_lossy(bytes: &[u8]) -> (s: String)
    ensures
        s@ == utf8_lossy(bytes@),
        valid_utf8(bytes@) ==> s@ == decode_utf8(bytes@),
        (forall|i: int| 0 <= i < bytes@.len() ==> bytes@[i] != 0) ==> (forall|j: int|
            0 <= j < s@.len() ==> s@[j] as u32 != 0),
{
    String::from_utf8_lossy(bytes).into_owned()
}

/// Decodes a NUL-terminated byte buffer: the bytes before the first zero, read as lossy UTF-8.
/// The text holds no NUL character, and when those bytes are valid UTF-8 it is their decoding,
/// whose encoding gives them back.
pub fn vec_to_string(v: &[u8]) -> (s: String)
    ensures
        s@ == lossy_text(cstr_prefix(v@)),
        forall|j: int| 0 <= j < s@.len() ==> s@[j] as u32 != 0,
        valid_utf8(cstr_prefix(v@)) ==> encode_utf8(s@) == cstr_prefix(v@),
{
    let mut prefix: Vec<u8> = Vec::new();
    let mut i: usize = 0;
    while i < v.len() && v[i] != 0
        invariant
            i <= v@.len(),
            prefix@ == v@.take(i as int),
            forall|j: int| 0 <= j < i ==> v@[j] != 0,
        decreases v@.len() - i,
    {
        prefix.push(v[i]);
        i = i + 1;
        assert(prefix@ =~= v@.take(i as int));
    }
    proof {
        lemma_cstr_len_at(v@, i as int);
    }
    let s = decode_lossy(prefix.as_slice());
    proof {
        if valid_utf8(prefix@) {
            decode_utf8_encode_utf8(prefix@);
        }
    }
    s
}

/// Collects the characters of a string.
pub fn chars_of(s: &str) -> (out: Vec<char>)
    ensures
        out@ == s@,
{
    let mut out: Vec<char> = Vec::new();
    for c in it: s.chars()
        invariant
            out@ == it.seq().take(it.index() as int),
    {
        out.push(c);
    }
    out
}


/// The buffer `string_to_vec` builds: `max_len` bytes holding at most `max_len - 1` leading
/// bytes of `bytes`, then zeros, so the buffer always ends in a NUL.
pub open spec fn padded_cstr(bytes: Seq<u8>, max_len: nat) -> Seq<u8> {
    Seq::new(max_len, |i: int| if i < bytes.len() && i < max_len - 1 { bytes[i] } else { 0u8 })
}

/// Copies the UTF-8 bytes of `s` into a zeroed buffer of `max_len` bytes, keeping room for
/// a final NUL (longer text is cut at `max_len - 1` bytes).
pub fn string_to_vec(s: &str, max_len: usize) -> (v: Vec<u8>)
    requires
        max_len >= 1,
    ensures
        v@ == padded_cstr(s.spec_bytes(), max_len as nat),
{
    let bytes = s.as_bytes();
    let mut v: Vec<u8> = Vec::new();
    let mut i: usize = 0;
    while i < max_len
        invariant
            i <= max_len,
            bytes@ == s.spec_bytes(),
            v@ == padded_cstr(bytes@, max_len as nat).take(i as int),
        decreases max_len - i,
    {
        let b: u8 = if i < bytes.len() && i < max_len - 1 { bytes[i] } else { 0u8 };
        v.push(b);
        i = i + 1;
        assert(v@ =~= padded_cstr(bytes@, max_len as nat).take(i as int));
    }
    assert(v@ =~= padded_cstr(bytes@, max_len as nat));
    v
}

/// Calls `String::push`: appends one character.
#[verifier::external_body]
pub(crate) fn push_char(s: &mut String, c: char)
    ensures
        final(s)@ == old(s)@.push(c),
{
    s.push(c);
}

/// Appends every character of `t` to `s`.
pub fn push_chars(s: &mut String, t: &Vec<char>)
    ensures
        final(s)@ == old(s)@ + t@,
{
    let ghost start = s@;
    let mut i: usize = 0;
    while i < t.len()
        invariant
            i <= t@.len(),
            s@ == start + t@.take(i as int),
        decreases t@.len() - i,
    {
        push_char(s, t[i]);
        i = i + 1;
        assert(s@ =~= start + t@.take(i as int));
    }
    assert(t@.take(t@.len() as int) =~= t@);
}

/// The character of a decimal digit.
pub open spec fn digit_char(d: nat) -> char {
    ((48 + d) as u8) as char
}

/// Decimal notation of `n`, without sign or leading zeros.
pub open spec fn decimal(n: nat) -> Seq<char>
    decreases n,
{
    if n < 10 {
        seq![digit_char(n)]
    } else {
        decimal(n / 10).push(digit_char(n % 10))
    }
}

/// Appends the decimal notation of `n`.
pub fn push_decimal(s: &mut String, n: u32)
    ensures
        final(s)@ == old(s)@ + decimal(n as nat),
    decreases n,
{
    if n >= 10 {
        push_decimal(s, n / 10);
    }
    let d: u8 = (n % 10) as u8;
    push_char(s, (48u8 + d) as char);
    assert(s@ =~= old(s)@ + decimal(n as nat));
}


/// `n` occurs in `h` starting at index `i`.
pub open spec fn occurs_at(h: Seq<char>, n: Seq<char>, i: int) -> bool {
    0 <= i && i + n.len() <= h.len() && h.subrange(i, i + n.len()) == n
}

/// `n` is a substring of `h` (the empty text is a substring of every text).
pub open spec fn has_substring(h: Seq<char>, n: Seq<char>) -> bool {
    exists|i: int| #[trigger] occurs_at(h, n, i)
}

/// `h` begins with `n`.
pub open spec fn has_prefix(h: Seq<char>, n: Seq<char>) -> bool {
    occurs_at(h, n, 0)
}

fn matches_at(h: &Vec<char>, n: &Vec<char>, i: usize) -> (r: bool)
    requires
        i + n@.len() <= h@.len(),
    ensures
        r == occurs_at(h@, n@, i as int),
{
    let hlen = h.len();
    let mut j: usize = 0;
    while j < n.len()
        invariant
            hlen == h@.len(),
            i + n@.len() <= h@.len(),
            j <= n@.len(),
            forall|k: int| 0 <= k < j ==> h@[i + k] == n@[k],
        decreases n@.len() - j,
    {
        if h[i + j] != n[j] {
            assert(h@.subrange(i as int, i + n@.len())[j as int] != n@[j as int]);
            return false;
        }
        j = j + 1;
    }
    assert(h@.subrange(i as int, i + n@.len()) =~= n@);
    true
}

/// Whether `n` occurs in `h`.
pub fn contains(h: &Vec<char>, n: &Vec<char>) -> (r: bool)
    ensures
        r == has_substring(h@, n@),
{
    if n.len() > h.len() {
        assert forall|i: int| !occurs_at(h@, n@, i) by {}
        return false;
    }
    if n.len() == 0 {
        assert(h@.subrange(0, 0) =~= n@);
        assert(occurs_at(h@, n@, 0));
        return true;
    }
    let hlen = h.len();
    let last = hlen - n.len();
    let mut i: usize = 0;
    while i <= last
        invariant
            hlen == h@.len(),
            last + n@.len() == h@.len(),
            n@.len() > 0,
            i <= last + 1,
            forall|k: int| 0 <= k < i ==> !occurs_at(h@, n@, k),
        decreases last + 1 - i,
    {
        if matches_at(h, n, i) {
            return true;
        }
        i = i + 1;
    }
    assert forall|k: int| !occurs_at(h@, n@, k) by {
        if 0 <= k < i {
        }
    }
    false
}

/// Whether `h` begins with `n`.
pub fn starts_with(h: &Vec<char>, n: &Vec<char>) -> (r: bool)
    ensures
        r == has_prefix(h@, n@),
{
    if n.len() > h.len() {
        false
    } else {
        matches_at(h, n, 0)
    }
}

/// The Unicode `White_Space` property, which `char::is_whitespace` and `str::trim` go by.
pub open spec fn is_white_space(c: char) -> bool {
    let u = c as u32;
    ||| 0x09 <= u <= 0x0d
    ||| u == 0x20
    ||| u == 0x85
    ||| u == 0xa0
    ||| u == 0x1680
    ||| 0x2000 <= u <= 0x200a
    ||| u == 0x2028
    ||| u == 0x2029
    ||| u == 0x202f
    ||| u == 0x205f
    ||| u == 0x3000
}

/// Whether `c` has the Unicode `White_Space` property.
pub fn is_white_space_char(c: char) -> (r: bool)
    ensures
        r == is_white_space(c),
{
    let u = c as u32;
    (0x09 <= u && u <= 0x0d) || u == 0x20 || u == 0x85 || u == 0xa0 || u == 0x1680 || (0x2000
        <= u && u <= 0x200a) || u == 0x2028 || u == 0x2029 || u == 0x202f || u == 0x205f || u
        == 0x3000
}

/// `s` without its leading white space.
pub open spec fn trim_start(s: Seq<char>) -> Seq<char>
    decreases s.len(),
{
    if s.len() > 0 && is_white_space(s[0]) {
        trim_start(s.drop_first())
    } else {
        s
    }
}

/// `s` without its trailing white space.
pub open spec fn trim_end(s: Seq<char>) -> Seq<char>
    decreases s.len(),
{
    if s.len() > 0 && is_white_space(s.last()) {
        trim_end(s.drop_last())
    } else {
        s
    }
}

/// `s` without leading and trailing white space, as `str::trim` gives it.
pub open spec fn trim(s: Seq<char>) -> Seq<char> {
    trim_end(trim_start(s))
}

proof fn lemma_trim_start_at(s: Seq<char>, k: int)
    requires
        0 <= k <= s.len(),
        forall|j: int| 0 <= j < k ==> is_white_space(s[j]),
        k == s.len() || !is_white_space(s[k]),
    ensures
        trim_start(s) == s.skip(k),
    decreases s.len(),
{
    if k == 0 {
        assert(s.skip(0) =~= s);
    } else {
        let t = s.drop_first();
        assert forall|j: int| 0 <= j < k - 1 implies is_white_space(t[j]) by {
            assert(t[j] == s[j + 1]);
        }
        lemma_trim_start_at(t, k - 1);
        assert(t.skip(k - 1) =~= s.skip(k));
    }
}

proof fn lemma_trim_end_at(s: Seq<char>, k: int)
    requires
        0 <= k <= s.len(),
        forall|j: int| k <= j < s.len() ==> is_white_space(s[j]),
        k == 0 || !is_white_space(s[k - 1]),
    ensures
        trim_end(s) == s.take(k),
    decreases s.len(),
{
    if k == s.len() {
        assert(s.take(k) =~= s);
    } else {
        let t = s.drop_last();
        lemma_trim_end_at(t, k);
        assert(t.take(k) =~= s.take(k));
    }
}

/// Copies `s[start..end]`.
fn copy_range(s: &Vec<char>, start: usize, end: usize) -> (out: Vec<char>)
    requires
        start <= end <= s@.len(),
    ensures
        out@ == s@.subrange(start as int, end as int),
{
    let mut out: Vec<char> = Vec::new();
    let mut i: usize = start;
    while i < end
        invariant
            start <= i <= end <= s@.len(),
            out@ == s@.subrange(start as int, i as int),
        decreases end - i,
    {
        out.push(s[i]);
        i = i + 1;
        assert(out@ =~= s@.subrange(start as int, i as int));
    }
    out
}

/// Removes leading and trailing white space.
pub fn trim_chars(s: &Vec<char>) -> (out: Vec<char>)
    ensures
        out@ == trim(s@),
{
    let mut start: usize = 0;
    while start < s.len() && is_white_space_char(s[start])
        invariant
            start <= s@.len(),
            forall|j: int| 0 <= j < start ==> is_white_space(s@[j]),
        decreases s@.len() - start,
    {
        start = start + 1;
    }
    let ghost t = s@.skip(start as int);
    proof {
        lemma_trim_start_at(s@, start as int);
    }
    let mut end: usize = s.len();
    while end > start && is_white_space_char(s[end - 1])
        invariant
            start <= end <= s@.len(),
            forall|j: int| end <= j < s@.len() ==> is_white_space(s@[j]),
        decreases end,
    {
        end = end - 1;
    }
    proof {
        assert forall|j: int| end - start <= j < t.len() implies is_white_space(t[j]) by {
            assert(t[j] == s@[start + j]);
        }
        if end > start {
            assert(t[end - start - 1] == s@[end - 1]);
        }
        lemma_trim_end_at(t, end - start);
        assert(t.take(end - start) =~= s@.subrange(start as int, end as int));
    }
    copy_range(s, start, end)
}

/// Index where the part of `s` after its last `'/'` begins (0 when `s` holds no `'/'`).
pub open spec fn segment_start(s: Seq<char>) -> nat
    decreases s.len(),
{
    if s.len() == 0 {
        0
    } else if s.last() == '/' {
        s.len()
    } else {
        segment_start(s.drop_last())
    }
}

/// The part of `s` after its last `'/'` (all of `s` when it holds none), as
/// `s.split('/').last()` gives it.
pub open spec fn last_segment(s: Seq<char>) -> Seq<char> {
    s.skip(segment_start(s) as int)
}

proof fn lemma_segment_start_at(s: Seq<char>, k: int)
    requires
        0 <= k <= s.len(),
        forall|j: int| k <= j < s.len() ==> s[j] != '/',
        k == 0 || s[k - 1] == '/',
    ensures
        segment_start(s) == k,
    decreases s.len(),
{
    if s.len() > 0 && k < s.len() {
        lemma_segment_start_at(s.drop_last(), k);
    }
}

/// The part of `s` after its last `'/'`.
pub fn last_segment_chars(s: &Vec<char>) -> (out: Vec<char>)
    ensures
        out@ == last_segment(s@),
{
    let mut k: usize = s.len();
    while k > 0 && s[k - 1] != '/'
        invariant
            k <= s@.len(),
            forall|j: int| k <= j < s@.len() ==> s@[j] != '/',
        decreases k,
    {
        k = k - 1;
    }
    proof {
        lemma_segment_start_at(s@, k as int);
    }
    copy_range(s, k, s.len())
}


/// Length of the first space-separated word of `s` (up to, not including, the first `' '`).
pub open spec fn word_len(s: Seq<char>) -> nat
    decreases s.len(),
{
    if s.len() == 0 || s[0] == ' ' {
        0
    } else {
        1 + word_len(s.drop_first())
    }
}

/// The first space-separated word of `s`: the command part of a command line.
pub open spec fn first_word(s: Seq<char>) -> Seq<char> {
    s.take(word_len(s) as int)
}

proof fn lemma_word_len_at(s: Seq<char>, n: int)
    requires
        0 <= n <= s.len(),
        forall|j: int| 0 <= j < n ==> s[j] != ' ',
        n == s.len() || s[n] == ' ',
    ensures
        word_len(s) == n,
    decreases s.len(),
{
    if s.len() > 0 && s[0] != ' ' {
        let t = s.drop_first();
        assert forall|j: int| 0 <= j < n - 1 implies t[j] != ' ' by {
            assert(t[j] == s[j + 1]);
        }
        lemma_word_len_at(t, n - 1);
    }
}

/// The first space-separated word of `s`.
pub fn first_word_chars(s: &Vec<char>) -> (out: Vec<char>)
    ensures
        out@ == first_word(s@),
{
    let mut n: usize = 0;
    while n < s.len() && s[n] != ' '
        invariant
            n <= s@.len(),
            forall|j: int| 0 <= j < n ==> s@[j] != ' ',
        decreases s@.len() - n,
    {
        n = n + 1;
    }
    proof {
        lemma_word_len_at(s@, n as int);
        assert(s@.subrange(0, n as int) =~= s@.take(n as int));
    }
    copy_range(s, 0, n)
}

/// Whether two texts are equal.
pub fn same_text(a: &Vec<char>, b: &Vec<char>) -> (r: bool)
    ensures
        r == (a@ == b@),
{
    if a.len() != b.len() {
        return false;
    }
    let mut i: usize = 0;
    while i < a.len()
        invariant
            a@.len() == b@.len(),
            i <= a@.len(),
            forall|j: int| 0 <= j < i ==> a@[j] == b@[j],
        decreases a@.len() - i,
    {
        if a[i] != b[i] {
            return false;
        }
        i = i + 1;
    }
    assert(a@ =~= b@);
    true
}


proof fn lemma_encode_scalar_nonzero(u: u32)
    requires
        u != 0,
    ensures
        forall|j: int| 0 <= j < encode_scalar(u).len() ==> encode_scalar(u)[j] != 0,
{
    assert(u <= 0x7F ==> (u & 0x7F) as u8 != 0) by (bit_vector)
        requires
            u != 0,
    ;
    assert(0xC0 | ((u >> 6) & 0x1F) as u8 != 0) by (bit_vector);
    assert(0xE0 | ((u >> 12) & 0x0F) as u8 != 0) by (bit_vector);
    assert(0xF0 | ((u >> 18) & 0x7) as u8 != 0) by (bit_vector);
    assert(0x80 | (u & 0x3F) as u8 != 0) by (bit_vector);
    assert(0x80 | ((u >> 6) & 0x3F) as u8 != 0) by (bit_vector);
    assert(0x80 | ((u >> 12) & 0x3F) as u8 != 0) by (bit_vector);
}

proof fn lemma_encode_utf8_nonzero(s: Seq<char>)
    requires
        forall|i: int| 0 <= i < s.len() ==> s[i] as u32 != 0,
    ensures
        forall|j: int| 0 <= j < encode_utf8(s).len() ==> encode_utf8(s)[j] != 0,
    decreases s.len(),
{
    if s.len() > 0 {
        let head = encode_scalar(s[0] as u32);
        let rest = s.drop_first();
        lemma_encode_scalar_nonzero(s[0] as u32);
        lemma_encode_utf8_nonzero(rest);
        assert(encode_utf8(s) == head + encode_utf8(rest));
        assert forall|j: int| 0 <= j < encode_utf8(s).len() implies encode_utf8(s)[j] != 0 by {
            if j < head.len() {
                assert(encode_utf8(s)[j] == head[j]);
            } else {
                assert(encode_utf8(s)[j] == encode_utf8(rest)[j - head.len()]);
            }
        }
    }
}

/// A buffer built by `string_to_vec` always has `max_len` bytes and ends in a NUL byte.
pub proof fn law_padded_is_terminated(bytes: Seq<u8>, max_len: nat)
    requires
        max_len >= 1,
    ensures
        padded_cstr(bytes, max_len).len() == max_len,
        padded_cstr(bytes, max_len)[max_len - 1] == 0,
{
}

/// Decoding a buffer that `string_to_vec` filled gives the text back, when the text holds no
/// NUL character and its UTF-8 encoding is shorter than the buffer.
pub proof fn law_string_buffer_roundtrip(s: Seq<char>, max_len: nat)
    requires
        forall|i: int| 0 <= i < s.len() ==> s[i] as u32 != 0,
        encode_utf8(s).len() < max_len,
    ensures
        lossy_text(cstr_prefix(padded_cstr(encode_utf8(s), max_len))) == s,
{
    let e = encode_utf8(s);
    let p = padded_cstr(e, max_len);
    lemma_encode_utf8_nonzero(s);
    assert forall|j: int| 0 <= j < e.len() implies p[j] != 0 by {
        assert(p[j] == e[j]);
    }
    lemma_cstr_len_at(p, e.len() as int);
    assert(cstr_prefix(p) =~= e);
    encode_utf8_valid_utf8(s);
    encode_utf8_decode_utf8(s);
}


/// Decoding is idempotent: the bytes of a text that `vec_to_string` returns (it never returns
/// a NUL character) decode back to that same text.
pub proof fn law_vec_to_string_idempotent(s: Seq<char>)
    requires
        forall|i: int| 0 <= i < s.len() ==> s[i] as u32 != 0,
    ensures
        lossy_text(cstr_prefix(encode_utf8(s))) == s,
{
    let e = encode_utf8(s);
    lemma_encode_utf8_nonzero(s);
    lemma_cstr_len_at(e, e.len() as int);
    assert(cstr_prefix(e) =~= e);
    encode_utf8_valid_utf8(s);
    encode_utf8_decode_utf8(s);
}

} // verus!
