use vstd::prelude::*;
use vstd::utf8::*;
use vstd::string::*;
use vstd::string::StrSliceExecFns;

verus! {

/// Number of bytes in the UTF-8 encoding of `s`.
pub open spec fn utf8_len(s: Seq<char>) -> int {
    encode_utf8(s).len() as int
}

/// Byte position at which character `k` of `s` starts in its UTF-8 encoding
/// (`utf8_len(s)` for `k == s.len()`).
pub open spec fn byte_offset(s: Seq<char>, k: int) -> int {
    encode_utf8(s.take(k)).len() as int
}

/// `b` is the start of a character of `s`, or its end.
pub open spec fn on_char_boundary(s: Seq<char>, b: int) -> bool {
    exists|k: int| 0 <= k <= s.len() && byte_offset(s, k) == b
}

/// The index of the character of `s` that starts at byte `b`.
pub open spec fn char_index_at(s: Seq<char>, b: int) -> int {
    choose|k: int| 0 <= k <= s.len() && byte_offset(s, k) == b
}

pub proof fn lemma_encode_concat(a: Seq<char>, b: Seq<char>)
    ensures
        encode_utf8(a + b) == encode_utf8(a) + encode_utf8(b),
    decreases a.len(),
{
    if a.len() == 0 {
        assert(a + b =~= b);
        assert(encode_utf8(a) =~= Seq::<u8>::empty());
        assert(encode_utf8(a) + encode_utf8(b) =~= encode_utf8(b));
    } else {
        assert((a + b).drop_first() =~= a.drop_first() + b);
        assert((a + b)[0] == a[0]);
        lemma_encode_concat(a.drop_first(), b);
        assert(encode_utf8(a + b) =~= encode_utf8(a) + encode_utf8(b));
    }
}

pub proof fn lemma_encode_single(c: char)
    ensures
        encode_utf8(seq![c]) == encode_scalar(c as u32),
        1 <= encode_scalar(c as u32).len() <= 4,
        (c as u32) < 0x80 ==> encode_scalar(c as u32).len() == 1,
{
    assert(seq![c].drop_first() =~= Seq::<char>::empty());
    assert(encode_utf8(seq![c]) =~= encode_scalar(c as u32) + encode_utf8(Seq::<char>::empty()));
    assert(encode_utf8(seq![c]) =~= encode_scalar(c as u32));
}

/// Encoding is one-to-one.
pub proof fn lemma_encode_injective(a: Seq<char>, b: Seq<char>)
    requires
        encode_utf8(a) == encode_utf8(b),
    ensures
        a == b,
{
    encode_utf8_decode_utf8(a);
    encode_utf8_decode_utf8(b);
}

pub proof fn lemma_byte_offset_split(s: Seq<char>, k: int)
    requires
        0 <= k <= s.len(),
    ensures
        encode_utf8(s) == encode_utf8(s.take(k)) + encode_utf8(s.skip(k)),
        0 <= byte_offset(s, k) <= utf8_len(s),
        byte_offset(s, s.len() as int) == utf8_len(s),
{
    assert(s =~= s.take(k) + s.skip(k));
    lemma_encode_concat(s.take(k), s.skip(k));
    assert(s.take(s.len() as int) =~= s);
}

pub proof fn lemma_byte_offset_step(s: Seq<char>, k: int)
    requires
        0 <= k < s.len(),
    ensures
        byte_offset(s, k + 1) == byte_offset(s, k) + encode_scalar(s[k] as u32).len(),
        byte_offset(s, k) < byte_offset(s, k + 1),
        (s[k] as u32) < 0x80 ==> byte_offset(s, k + 1) == byte_offset(s, k) + 1,
{
    assert(s.take(k + 1) =~= s.take(k) + seq![s[k]]);
    lemma_encode_concat(s.take(k), seq![s[k]]);
    lemma_encode_single(s[k]);
}

pub proof fn lemma_byte_offset_strict(s: Seq<char>, j: int, k: int)
    requires
        0 <= j <= k <= s.len(),
    ensures
        byte_offset(s, j) + (k - j) <= byte_offset(s, k),
    decreases k - j,
{
    if j < k {
        lemma_byte_offset_strict(s, j, k - 1);
        lemma_byte_offset_step(s, k - 1);
    }
}

/// A byte position on a boundary starts exactly one character.
pub proof fn lemma_char_index_at(s: Seq<char>, b: int)
    requires
        on_char_boundary(s, b),
    ensures
        0 <= char_index_at(s, b) <= s.len(),
        byte_offset(s, char_index_at(s, b)) == b,
        forall|k: int| 0 <= k <= s.len() && byte_offset(s, k) == b ==> k == char_index_at(s, b),
{
    let i = char_index_at(s, b);
    assert forall|k: int| 0 <= k <= s.len() && byte_offset(s, k) == b implies k == i by {
        if k < i {
            lemma_byte_offset_strict(s, k, i);
        } else if i < k {
            lemma_byte_offset_strict(s, i, k);
        }
    }
}

/// The start of character `k` is a boundary, and `k` is the character there.
pub proof fn lemma_offset_is_boundary(s: Seq<char>, k: int)
    requires
        0 <= k <= s.len(),
    ensures
        on_char_boundary(s, byte_offset(s, k)),
        char_index_at(s, byte_offset(s, k)) == k,
{
    lemma_char_index_at(s, byte_offset(s, k));
}

/// For text made of ASCII characters only, bytes and characters coincide.
pub proof fn lemma_ascii_offsets(s: Seq<char>, k: int)
    requires
        0 <= k <= s.len(),
        forall|i: int| 0 <= i < s.len() ==> (s[i] as u32) < 0x80,
    ensures
        byte_offset(s, k) == k,
    decreases k,
{
    if k == 0 {
        assert(s.take(0) =~= Seq::<char>::empty());
    } else {
        lemma_ascii_offsets(s, k - 1);
        lemma_byte_offset_step(s, k - 1);
    }
}

/// A boundary lies before the end of the encoding exactly when a character
/// starts there.
pub proof fn lemma_boundary_before_end(s: Seq<char>, b: int)
    requires
        on_char_boundary(s, b),
    ensures
        (b < utf8_len(s)) == (char_index_at(s, b) < s.len()),
        0 <= b <= utf8_len(s),
{
    let k = char_index_at(s, b);
    lemma_char_index_at(s, b);
    lemma_byte_offset_split(s, k);
    if k < s.len() {
        lemma_byte_offset_strict(s, k, s.len() as int);
    }
}

/// Boundaries in the sense of the standard library agree with character starts.
pub proof fn lemma_boundary_agrees(s: Seq<char>, b: int)
    ensures
        is_char_boundary(encode_utf8(s), b) <==> on_char_boundary(s, b),
    decreases s.len(),
{
    let bytes = encode_utf8(s);
    encode_utf8_valid_utf8(s);
    assert(s.take(0) =~= Seq::<char>::empty());
    if b == 0 {
        assert(byte_offset(s, 0) == 0);
    } else if b < 0 || bytes.len() < b {
        if on_char_boundary(s, b) {
            let k = choose|k: int| 0 <= k <= s.len() && byte_offset(s, k) == b;
            lemma_byte_offset_split(s, k);
        }
    } else {
        assert(s.len() > 0);
        let t = s.drop_first();
        encode_utf8_first_scalar(s);
        let w = encode_scalar(s[0] as u32).len() as int;
        assert(pop_first_scalar(bytes) =~= encode_utf8(t));
        lemma_boundary_agrees(t, b - w);
        assert forall|j: int| 0 <= j <= t.len() implies byte_offset(s, j + 1) == w + byte_offset(t, j) by {
            assert(s.take(j + 1).drop_first() =~= t.take(j));
            assert(s.take(j + 1)[0] == s[0]);
        }
        if on_char_boundary(t, b - w) {
            let j = choose|j: int| 0 <= j <= t.len() && byte_offset(t, j) == b - w;
            assert(byte_offset(s, j + 1) == b);
        }
        if on_char_boundary(s, b) {
            let k = choose|k: int| 0 <= k <= s.len() && byte_offset(s, k) == b;
            assert(k != 0);
            assert(byte_offset(s, (k - 1) + 1) == w + byte_offset(t, k - 1));
            assert(byte_offset(t, k - 1) == b - w);
        }
    }
}

/// Byte length of a string, as `str::len` reports it.
pub fn string_byte_len(s: &String) -> (n: usize)
    ensures
        n == utf8_len(s@),
{
    s.as_str().as_bytes().len()
}

/// Whether byte position `i` of `s` is a character boundary, as
/// `str::is_char_boundary` reports it.
pub fn string_is_char_boundary(s: &String, i: usize) -> (r: bool)
    ensures
        r == on_char_boundary(s@, i as int),
{
    let r = s.as_str().is_char_boundary(i);
    proof {
        lemma_boundary_agrees(s@, i as int);
    }
    r
}

/// `String::insert`: inserts `ch` at byte position `idx`, which must lie on a
/// character boundary (it panics otherwise). The contract says that the
/// character lands before the character that started at `idx`.
#[verifier::external_body]
pub(crate) fn string_insert(s: &mut String, idx: usize, ch: char)
    requires
        on_char_boundary(old(s)@, idx as int),
    ensures
        final(s)@ == old(s)@.take(char_index_at(old(s)@, idx as int)) + seq![ch] + old(s)@.skip(
            char_index_at(old(s)@, idx as int),
        ),
{
    s.insert(idx, ch)
}

/// `String::remove`: removes and returns the character that starts at byte
/// position `idx`, which must be a character boundary before the end (it panics
/// otherwise).
#[verifier::external_body]
pub(crate) fn string_remove(s: &mut String, idx: usize) -> (c: char)
    requires
        on_char_boundary(old(s)@, idx as int),
        idx < utf8_len(old(s)@),
    ensures
        c == old(s)@[char_index_at(old(s)@, idx as int)],
        final(s)@ == old(s)@.remove(char_index_at(old(s)@, idx as int)),
{
    s.remove(idx)
}


/// The Unicode `White_Space` property, which `char::is_whitespace` tests.
pub open spec fn is_white_space(c: char) -> bool {
    let v = c as u32;
    (0x09 <= v <= 0x0D) || v == 0x20 || v == 0x85 || v == 0xA0 || v == 0x1680 || (0x2000 <= v
        <= 0x200A) || v == 0x2028 || v == 0x2029 || v == 0x202F || v == 0x205F || v == 0x3000
}

/// Whether `c` has the Unicode `White_Space` property.
pub fn is_whitespace_char(c: char) -> (r: bool)
    ensures
        r == is_white_space(c),
{
    let v = c as u32;
    (0x09 <= v && v <= 0x0D) || v == 0x20 || v == 0x85 || v == 0xA0 || v == 0x1680 || (0x2000 <= v
        && v <= 0x200A) || v == 0x2028 || v == 0x2029 || v == 0x202F || v == 0x205F || v == 0x3000
}

/// `s` without its leading white space.
pub open spec fn trim_start_spec(s: Seq<char>) -> Seq<char>
    decreases s.len(),
{
    if s.len() > 0 && is_white_space(s[0]) {
        trim_start_spec(s.drop_first())
    } else {
        s
    }
}

/// `s` without its trailing white space.
pub open spec fn trim_end_spec(s: Seq<char>) -> Seq<char>
    decreases s.len(),
{
    if s.len() > 0 && is_white_space(s.last()) {
        trim_end_spec(s.drop_last())
    } else {
        s
    }
}

/// `s` without leading and trailing white space, as `str::trim` gives it.
pub open spec fn trim_spec(s: Seq<char>) -> Seq<char> {
    trim_end_spec(trim_start_spec(s))
}

proof fn lemma_trim_start_skip(s: Seq<char>, i: int)
    requires
        0 <= i <= s.len(),
        forall|j: int| 0 <= j < i ==> is_white_space(s[j]),
    ensures
        trim_start_spec(s) == trim_start_spec(s.skip(i)),
    decreases i,
{
    if i > 0 {
        assert(s.drop_first().skip(i - 1) =~= s.skip(i));
        lemma_trim_start_skip(s.drop_first(), i - 1);
    } else {
        assert(s.skip(0) =~= s);
    }
}

proof fn lemma_trim_end_take(s: Seq<char>, j: int)
    requires
        0 <= j <= s.len(),
        forall|k: int| j <= k < s.len() ==> is_white_space(s[k]),
    ensures
        trim_end_spec(s) == trim_end_spec(s.take(j)),
    decreases s.len() - j,
{
    if j < s.len() {
        assert(s.drop_last().take(j) =~= s.take(j));
        lemma_trim_end_take(s.drop_last(), j);
    } else {
        assert(s.take(j) =~= s);
    }
}

/// A copy of `s` without leading and trailing white space.
pub fn trim_to_string(s: &str) -> (r: String)
    ensures
        r@ == trim_spec(s@),
{
    let n = s.unicode_len();
    let mut i: usize = 0;
    while i < n && is_whitespace_char(s.get_char(i))
        invariant
            n == s@.len(),
            0 <= i <= n,
            forall|j: int| 0 <= j < i ==> is_white_space(s@[j]),
        decreases n - i,
    {
        i = i + 1;
    }
    proof {
        lemma_trim_start_skip(s@, i as int);
    }
    let ghost t = s@.skip(i as int);
    assert(trim_start_spec(t) == t);
    let mut j: usize = n;
    while j > i && is_whitespace_char(s.get_char(j - 1))
        invariant
            n == s@.len(),
            i <= j <= n,
            forall|k: int| j <= k < n ==> is_white_space(s@[k]),
        decreases j,
    {
        j = j - 1;
    }
    proof {
        let u = s@.subrange(i as int, j as int);
        assert(u =~= t.take(j - i));
        lemma_trim_end_take(t, j - i);
        if u.len() > 0 {
            assert(u.last() == s@[j - 1]);
        }
    }
    let sub = s.substring_char(i, j);
    sub.to_string()
}


/// Splitting the encoding of `s` at a boundary splits `s` at the character there.
pub proof fn lemma_split_bytes(s: Seq<char>, b: int)
    requires
        on_char_boundary(s, b),
    ensures
        encode_utf8(s).subrange(0, b) == encode_utf8(s.take(char_index_at(s, b))),
        encode_utf8(s).subrange(b, utf8_len(s)) == encode_utf8(s.skip(char_index_at(s, b))),
{
    let k = char_index_at(s, b);
    lemma_char_index_at(s, b);
    lemma_byte_offset_split(s, k);
    assert(encode_utf8(s).subrange(0, b) =~= encode_utf8(s.take(k)));
    assert(encode_utf8(s).subrange(b, utf8_len(s)) =~= encode_utf8(s.skip(k)));
}

/// The text of `s` before byte position `b`, which must be a boundary.
pub fn prefix_before(s: &String, b: usize) -> (r: String)
    requires
        on_char_boundary(s@, b as int),
    ensures
        r@ == s@.take(char_index_at(s@, b as int)),
{
    proof {
        lemma_boundary_agrees(s@, b as int);
        lemma_split_bytes(s@, b as int);
    }
    let (left, _right) = s.as_str().split_at(b);
    proof {
        lemma_encode_injective(left@, s@.take(char_index_at(s@, b as int)));
    }
    left.to_owned()
}

/// The text of `s` from byte position `b` on, which must be a boundary.
pub fn suffix_from(s: &String, b: usize) -> (r: String)
    requires
        on_char_boundary(s@, b as int),
    ensures
        r@ == s@.skip(char_index_at(s@, b as int)),
{
    proof {
        lemma_boundary_agrees(s@, b as int);
        lemma_split_bytes(s@, b as int);
    }
    let (_left, right) = s.as_str().split_at(b);
    proof {
        lemma_encode_injective(right@, s@.skip(char_index_at(s@, b as int)));
    }
    right.to_owned()
}

/// The decimal digits of `n`, most significant first.
pub open spec fn decimal_digits(n: nat) -> Seq<char>
    decreases n,
{
    if n < 10 {
        seq![('0' as u32 + n) as char]
    } else {
        decimal_digits(n / 10).push(('0' as u32 + n % 10) as char)
    }
}

/// The decimal text of `v`, as `i32`'s `Display` writes it.
pub open spec fn i32_decimal(v: i32) -> Seq<char> {
    if v < 0 {
        seq!['-'] + decimal_digits((-v) as nat)
    } else {
        decimal_digits(v as nat)
    }
}

fn digit_str(d: u32) -> (s: &'static str)
    requires
        d < 10,
    ensures
        s@ == seq![('0' as u32 + d) as char],
{
    proof {
        reveal_strlit("0");
        reveal_strlit("1");
        reveal_strlit("2");
        reveal_strlit("3");
        reveal_strlit("4");
        reveal_strlit("5");
        reveal_strlit("6");
        reveal_strlit("7");
        reveal_strlit("8");
        reveal_strlit("9");
    }
    let s = match d {
        0 => "0",
        1 => "1",
        2 => "2",
        3 => "3",
        4 => "4",
        5 => "5",
        6 => "6",
        7 => "7",
        8 => "8",
        _ => "9",
    };
    assert(s@ =~= seq![('0' as u32 + d) as char]);
    s
}

fn append_decimal(s: &mut String, n: u32)
    ensures
        final(s)@ == old(s)@ + decimal_digits(n as nat),
    decreases n,
{
    if n >= 10 {
        append_decimal(s, n / 10);
    }
    s.append(digit_str(n % 10));
    proof {
        if n >= 10 {
            assert(old(s)@ + decimal_digits(n as nat) =~= old(s)@ + decimal_digits((n / 10) as nat)
                + seq![('0' as u32 + n % 10) as char]);
        } else {
            assert(decimal_digits(n as nat) =~= seq![('0' as u32 + n) as char]);
        }
    }
}

/// The decimal text of `v`.
pub fn i32_to_string(v: i32) -> (s: String)
    ensures
        s@ == i32_decimal(v),
{
    let mut s = String::new();
    if v < 0 {
        s.append("-");
        proof {
            reveal_strlit("-");
        }
        let m: u32 = (-(v as i64)) as u32;
        append_decimal(&mut s, m);
    } else {
        append_decimal(&mut s, v as u32);
    }
    s
}

} // verus!
