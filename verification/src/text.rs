//! Text helpers shared by the views: truncation, byte sizes, remote paths.
use vstd::prelude::*;
use vstd::slice::slice_subrange;

verus! {

/// The characters of `s`, in order.
#[verifier::external_body]
pub(crate) fn to_chars(s: &str) -> (r: Vec<char>)
    ensures
        r@ == s@,
{
    s.chars().collect()
}

/// A string made of the given characters, in order.
#[verifier::external_body]
pub(crate) fn from_chars(chars: &[char]) -> (r: String)
    ensures
        r@ == chars@,
{
    chars.iter().collect()
}

/// What `truncate_text` shows of `value` in at most `max_width` characters.
pub open spec fn truncated(value: Seq<char>, max_width: nat) -> Seq<char> {
    if max_width == 0 {
        Seq::empty()
    } else if value.len() <= max_width {
        value
    } else if max_width <= 3 {
        value.take(max_width as int)
    } else {
        value.take(max_width - 3) + seq!['.', '.', '.']
    }
}

/// Shortens `value` to at most `max_width` characters; a cut that leaves
/// room for it ends in "...".
pub fn truncate_text(value: &str, max_width: usize) -> (r: String)
    ensures
        r@ == truncated(value@, max_width as nat),
        r@.len() <= max_width,
{
    let chars = to_chars(value);
    if max_width == 0 {
        return from_chars(&[]);
    }
    let count = chars.len();
    if count <= max_width {
        return from_chars(chars.as_slice());
    }
    if max_width <= 3 {
        let head = slice_subrange(chars.as_slice(), 0, max_width);
        assert(head@ =~= value@.take(max_width as int));
        return from_chars(head);
    }
    let mut kept = Vec::new();
    let mut i: usize = 0;
    while i < max_width - 3
        invariant
            i <= max_width - 3,
            max_width - 3 < chars@.len(),
            kept@ =~= chars@.take(i as int),
        decreases max_width - 3 - i,
    {
        kept.push(chars[i]);
        i = i + 1;
    }
    kept.push('.');
    kept.push('.');
    kept.push('.');
    assert(kept@ =~= value@.take(max_width - 3) + seq!['.', '.', '.']);
    from_chars(kept.as_slice())
}

/// Whether `c` is whitespace in Unicode's White_Space sense, as
/// `char::is_whitespace` defines it.
pub open spec fn is_whitespace(c: char) -> bool {
    let u = c as u32;
    ||| u == 0x20
    ||| 0x09 <= u <= 0x0d
    ||| u == 0x85
    ||| u == 0xa0
    ||| u == 0x1680
    ||| 0x2000 <= u <= 0x200a
    ||| u == 0x2028
    ||| u == 0x2029
    ||| u == 0x202f
    ||| u == 0x205f
    ||| u == 0x3000
}

/// Whether every character of `s` is whitespace.
pub open spec fn is_blank(s: Seq<char>) -> bool {
    forall|i: int| 0 <= i < s.len() ==> #[trigger] is_whitespace(s[i])
}

/// Whether `c` is whitespace.
pub fn char_is_whitespace(c: char) -> (r: bool)
    ensures
        r == is_whitespace(c),
{
    let u = c as u32;
    u == 0x20 || (0x09 <= u && u <= 0x0d) || u == 0x85 || u == 0xa0 || u == 0x1680 || (0x2000
        <= u && u <= 0x200a) || u == 0x2028 || u == 0x2029 || u == 0x202f || u == 0x205f || u
        == 0x3000
}

/// Whether `s` holds nothing but whitespace (an empty string does).
pub fn blank(s: &str) -> (r: bool)
    ensures
        r == is_blank(s@),
{
    let chars = to_chars(s);
    let mut i: usize = 0;
    while i < chars.len()
        invariant
            i <= chars.len(),
            chars@ == s@,
            forall|j: int| 0 <= j < i ==> #[trigger] is_whitespace(chars@[j]),
        decreases chars.len() - i,
    {
        if !char_is_whitespace(chars[i]) {
            return false;
        }
        i = i + 1;
    }
    true
}

/// `s` without its leading whitespace.
pub open spec fn trim_start(s: Seq<char>) -> Seq<char>
    decreases s.len(),
{
    if s.len() > 0 && is_whitespace(s[0]) {
        trim_start(s.drop_first())
    } else {
        s
    }
}

/// `s` without its trailing whitespace.
pub open spec fn trim_end(s: Seq<char>) -> Seq<char>
    decreases s.len(),
{
    if s.len() > 0 && is_whitespace(s.last()) {
        trim_end(s.drop_last())
    } else {
        s
    }
}

/// `s` without leading and trailing whitespace.
pub open spec fn trimmed(s: Seq<char>) -> Seq<char> {
    trim_end(trim_start(s))
}

/// `s` without leading and trailing whitespace, as `str::trim` gives it.
pub fn trim_text(s: &str) -> (r: String)
    ensures
        r@ == trimmed(s@),
{
    let chars = to_chars(s);
    let len = chars.len();
    let mut start: usize = 0;
    assert(chars@.subrange(0, len as int) =~= chars@);
    while start < len && char_is_whitespace(chars[start])
        invariant
            start <= len,
            len == chars@.len(),
            chars@ == s@,
            trim_start(s@) == trim_start(chars@.subrange(start as int, len as int)),
        decreases len - start,
    {
        assert(chars@.subrange(start as int, len as int).drop_first() =~= chars@.subrange(
            start + 1,
            len as int,
        ));
        start = start + 1;
    }
    assert(trim_start(s@) == chars@.subrange(start as int, len as int));
    let mut end: usize = len;
    while end > start && char_is_whitespace(chars[end - 1])
        invariant
            start <= end <= len,
            len == chars@.len(),
            chars@ == s@,
            trim_end(chars@.subrange(start as int, len as int)) == trim_end(
                chars@.subrange(start as int, end as int),
            ),
        decreases end - start,
    {
        assert(chars@.subrange(start as int, end as int).drop_last() =~= chars@.subrange(
            start as int,
            end - 1,
        ));
        end = end - 1;
    }
    assert(trim_end(chars@.subrange(start as int, end as int)) == chars@.subrange(
        start as int,
        end as int,
    ));
    from_chars(slice_subrange(chars.as_slice(), start, end))
}

/// Whether two strings hold the same characters.
pub fn same_text(a: &str, b: &str) -> (r: bool)
    ensures
        r == (a@ == b@),
{
    let x = to_chars(a);
    let y = to_chars(b);
    if x.len() != y.len() {
        return false;
    }
    let mut i: usize = 0;
    while i < x.len()
        invariant
            i <= x.len(),
            x.len() == y.len(),
            x@ == a@,
            y@ == b@,
            forall|j: int| 0 <= j < i ==> x@[j] == y@[j],
        decreases x.len() - i,
    {
        if x[i] != y[i] {
            return false;
        }
        i = i + 1;
    }
    assert(x@ =~= y@);
    true
}

/// The decimal digit for `d < 10`.
pub open spec fn digit_char(d: nat) -> char {
    ((d + 48) as u8) as char
}

/// The decimal text of `n`, without leading zeros.
pub open spec fn decimal(n: nat) -> Seq<char>
    decreases n,
{
    if n < 10 {
        seq![digit_char(n)]
    } else {
        decimal(n / 10) + seq![digit_char(n % 10)]
    }
}

fn digit(d: u64) -> (c: char)
    requires
        d < 10,
    ensures
        c == digit_char(d as nat),
{
    ((d as u8) + 48) as char
}

/// Appends the decimal text of `n` to `out`.
pub fn push_decimal(n: u64, out: &mut Vec<char>)
    ensures
        final(out)@ == old(out)@ + decimal(n as nat),
    decreases n,
{
    if n >= 10 {
        push_decimal(n / 10, out);
    }
    out.push(digit(n % 10));
    proof {
        if n >= 10 {
            assert(final(out)@ =~= old(out)@ + decimal(n as nat));
        } else {
            assert(final(out)@ =~= old(out)@ + decimal(n as nat));
        }
    }
}

/// 2 to the power `k`.
pub open spec fn pow2(k: nat) -> nat
    decreases k,
{
    if k == 0 {
        1
    } else {
        2 * pow2((k - 1) as nat)
    }
}

/// 1024 to the power `k`.
pub open spec fn pow1024(k: nat) -> nat
    decreases k,
{
    if k == 0 {
        1
    } else {
        1024 * pow1024((k - 1) as nat)
    }
}

/// The number of binary digits of `n`.
pub open spec fn bit_len(n: nat) -> nat
    decreases n,
{
    if n == 0 {
        0
    } else {
        1 + bit_len(n / 2)
    }
}

/// The double-precision value nearest to `n` (ties to even), as an
/// integer: `n` itself below 2^53, otherwise `n` rounded to a multiple of
/// the power of two that leaves 53 significant bits.
pub open spec fn nearest_double(n: nat) -> nat {
    if bit_len(n) <= 53 {
        n
    } else {
        let p = pow2((bit_len(n) - 53) as nat);
        let q = n / p;
        let r = n % p;
        let up: nat = if 2 * r > p || (2 * r == p && q % 2 == 1) {
            1
        } else {
            0
        };
        (q + up) * p
    }
}

/// The unit index that `format_bytes` chooses for a value: the largest
/// `k <= 4` with `value >= 1024^k`.
pub open spec fn unit_index(value: nat) -> nat {
    if value >= pow1024(4) {
        4
    } else if value >= pow1024(3) {
        3
    } else if value >= pow1024(2) {
        2
    } else if value >= pow1024(1) {
        1
    } else {
        0
    }
}

/// The name of a unit.
pub open spec fn unit_name(k: nat) -> Seq<char> {
    if k == 0 {
        seq!['B']
    } else if k == 1 {
        seq!['K', 'B']
    } else if k == 2 {
        seq!['M', 'B']
    } else if k == 3 {
        seq!['G', 'B']
    } else {
        seq!['T', 'B']
    }
}

/// `num / den` rounded to the nearest integer, ties to even.
pub open spec fn round_half_even(num: nat, den: nat) -> nat {
    let q = num / den;
    let r = num % den;
    if 2 * r > den || (2 * r == den && q % 2 == 1) {
        q + 1
    } else {
        q
    }
}

/// What `format_bytes` shows: bytes as they are below 1 KB; otherwise the
/// value (as a double) in the largest unit up to TB it reaches, with one
/// decimal, rounded to nearest with ties to even.
pub open spec fn bytes_text(bytes: nat) -> Seq<char> {
    let f = nearest_double(bytes);
    let k = unit_index(f);
    if k == 0 {
        decimal(bytes) + seq![' ', 'B']
    } else {
        let tenths = round_half_even(10 * f, pow1024(k));
        decimal(tenths / 10) + seq!['.'] + decimal(tenths % 10) + seq![' '] + unit_name(k)
    }
}

proof fn lemma_bit_len_bounds(n: nat)
    ensures
        n < pow2(bit_len(n)),
        n > 0 ==> pow2((bit_len(n) - 1) as nat) <= n,
    decreases n,
{
    if n > 0 {
        lemma_bit_len_bounds(n / 2);
    }
}

proof fn lemma_pow2_mono(a: nat, b: nat)
    requires
        a <= b,
    ensures
        pow2(a) <= pow2(b),
    decreases b,
{
    if a < b {
        lemma_pow2_mono(a, (b - 1) as nat);
    }
}

proof fn lemma_pow2_positive(k: nat)
    ensures
        pow2(k) >= 1,
    decreases k,
{
    if k > 0 {
        lemma_pow2_positive((k - 1) as nat);
    }
}

proof fn lemma_pow2_add(a: nat, b: nat)
    ensures
        pow2(a + b) == pow2(a) * pow2(b),
    decreases a,
{
    if a > 0 {
        let a1 = (a - 1) as nat;
        lemma_pow2_add(a1, b);
        assert(a + b == (a1 + b) + 1);
        assert(pow2(a + b) == 2 * pow2(a1 + b));
        assert(pow2(a) == 2 * pow2(a1));
        assert(2 * (pow2(a1) * pow2(b)) == (2 * pow2(a1)) * pow2(b)) by (nonlinear_arith);
    } else {
        assert(pow2(0) == 1);
        assert(a + b == b);
    }
}

proof fn lemma_pow2_values()
    ensures
        pow2(11) == 2048,
        pow2(53) == 0x20_0000_0000_0000,
        pow2(64) == 0x1_0000_0000_0000_0000,
{
    reveal_with_fuel(pow2, 21);
    assert(pow2(9) == 512);
    assert(pow2(11) == 2048);
    assert(pow2(20) == 0x10_0000);
    lemma_pow2_add(11, 11);
    assert(pow2(22) == 0x40_0000);
    lemma_pow2_add(22, 22);
    assert(pow2(44) == 0x1000_0000_0000);
    lemma_pow2_add(44, 9);
    lemma_pow2_add(44, 20);
}

proof fn lemma_pow1024_values()
    ensures
        pow1024(1) == 1024,
        pow1024(2) == 1048576,
        pow1024(3) == 1073741824,
        pow1024(4) == 1099511627776,
{
    reveal_with_fuel(pow1024, 5);
}

/// The value of `bytes` rounded to a double, as an integer (at most 2^64).
fn double_of(bytes: u64) -> (r: u128)
    ensures
        r == nearest_double(bytes as nat),
        r <= 0x1_0000_0000_0000_0000u128,
{
    proof {
        lemma_pow2_values();
        assert(pow2(0) == 1);
        assert((bytes as nat) / 1 == bytes as nat);
    }
    let mut n: u64 = bytes;
    let mut bl: u64 = 0;
    while n > 0
        invariant
            bit_len(bytes as nat) == bl + bit_len(n as nat),
            n as nat == (bytes as nat) / pow2(bl as nat),
            bl <= 64,
            pow2(64) == 0x1_0000_0000_0000_0000,
        decreases n,
    {
        proof {
            lemma_pow2_positive(bl as nat);
            if bl == 64 {
                assert((bytes as nat) / pow2(64) == 0);
            }
            vstd::arithmetic::div_mod::lemma_div_denominator(bytes as int, pow2(bl as nat) as int, 2);
            assert(pow2((bl + 1) as nat) == pow2(bl as nat) * 2);
        }
        n = n / 2;
        bl = bl + 1;
    }
    if bl <= 53 {
        return bytes as u128;
    }
    let shift = bl - 53;
    let mut p: u128 = 1;
    let mut i: u64 = 0;
    while i < shift
        invariant
            i <= shift,
            shift <= 11,
            p == pow2(i as nat),
            p <= 2048,
            p >= 1,
            pow2(11) == 2048,
        decreases shift - i,
    {
        proof {
            lemma_pow2_mono((i + 1) as nat, 11);
        }
        p = p * 2;
        i = i + 1;
    }
    let b = bytes as u128;
    let q = b / p;
    let r = b % p;
    let up: u128 = if 2 * r > p || (2 * r == p && q % 2 == 1) {
        1
    } else {
        0
    };
    proof {
        lemma_bit_len_bounds(bytes as nat);
        lemma_pow2_add(shift as nat, 53);
        lemma_pow2_positive(shift as nat);
        vstd::arithmetic::div_mod::lemma_fundamental_div_mod(b as int, p as int);
        assert(q < 0x20_0000_0000_0000) by (nonlinear_arith)
            requires
                b < p * 0x20_0000_0000_0000,
                b == p * q + r,
                r >= 0,
                p > 0,
        ;
        assert((q + up) * p <= 0x1_0000_0000_0000_0000) by (nonlinear_arith)
            requires
                q < 0x20_0000_0000_0000,
                up <= 1,
                p <= 2048,
        ;
    }
    (q + up) * p
}

/// Shows a byte count: plain bytes below 1 KB ("512 B"), otherwise one
/// decimal in KB, MB, GB or TB ("1.0 KB").
pub fn format_bytes(bytes: u64) -> (r: String)
    ensures
        r@ == bytes_text(bytes as nat),
{
    let f = double_of(bytes);
    proof {
        lemma_pow1024_values();
    }
    let (k, den): (u64, u128) = if f >= 1099511627776 {
        (4, 1099511627776)
    } else if f >= 1073741824 {
        (3, 1073741824)
    } else if f >= 1048576 {
        (2, 1048576)
    } else if f >= 1024 {
        (1, 1024)
    } else {
        (0, 1)
    };
    let mut out: Vec<char> = Vec::new();
    if k == 0 {
        push_decimal(bytes, &mut out);
        out.push(' ');
        out.push('B');
        assert(out@ =~= bytes_text(bytes as nat));
        return from_chars(out.as_slice());
    }
    assert(den == pow1024(k as nat));
    let num = 10 * f;
    let q = num / den;
    let rem = num % den;
    proof {
        vstd::arithmetic::div_mod::lemma_fundamental_div_mod(num as int, den as int);
        assert(q <= 0x280_0000_0000_0000) by (nonlinear_arith)
            requires
                num == den * q + rem,
                rem >= 0,
                den >= 1024,
                num <= 0xa_0000_0000_0000_0000,
        ;
    }
    let tenths = if 2 * rem > den || (2 * rem == den && q % 2 == 1) {
        q + 1
    } else {
        q
    };
    let whole = (tenths / 10) as u64;
    let frac = (tenths % 10) as u64;
    push_decimal(whole, &mut out);
    out.push('.');
    push_decimal(frac, &mut out);
    out.push(' ');
    if k == 1 {
        out.push('K');
    } else if k == 2 {
        out.push('M');
    } else if k == 3 {
        out.push('G');
    } else {
        out.push('T');
    }
    out.push('B');
    assert(out@ =~= bytes_text(bytes as nat));
    from_chars(out.as_slice())
}

/// `s` without its trailing slashes.
pub open spec fn trim_slashes_end(s: Seq<char>) -> Seq<char>
    decreases s.len(),
{
    if s.len() > 0 && s.last() == '/' {
        trim_slashes_end(s.drop_last())
    } else {
        s
    }
}

/// The part of `s` before its last slash, if it has one.
pub open spec fn before_last_slash(s: Seq<char>) -> Option<Seq<char>>
    decreases s.len(),
{
    if s.len() == 0 {
        None
    } else if s.last() == '/' {
        Some(s.drop_last())
    } else {
        before_last_slash(s.drop_last())
    }
}

/// The parent of a remote path: trailing slashes dropped, then everything
/// before the last slash; "/" where that is empty or there is no slash.
pub open spec fn spec_parent_remote_dir(path: Seq<char>) -> Seq<char> {
    match before_last_slash(trim_slashes_end(path)) {
        Some(base) => if base.len() == 0 {
            seq!['/']
        } else {
            base
        },
        None => seq!['/'],
    }
}

/// The parent directory of a remote path ("/" for the root and for a
/// relative name).
pub fn parent_remote_dir(path: &str) -> (r: String)
    ensures
        r@ == spec_parent_remote_dir(path@),
{
    let chars = to_chars(path);
    let mut end: usize = chars.len();
    assert(chars@.take(end as int) =~= chars@);
    while end > 0 && chars[end - 1] == '/'
        invariant
            end <= chars@.len(),
            chars@ == path@,
            trim_slashes_end(path@) == trim_slashes_end(chars@.take(end as int)),
        decreases end,
    {
        assert(chars@.take(end as int).drop_last() =~= chars@.take(end - 1));
        end = end - 1;
    }
    let ghost t = chars@.take(end as int);
    assert(trim_slashes_end(t) == t);
    let mut j: usize = end;
    while j > 0 && chars[j - 1] != '/'
        invariant
            j <= end <= chars@.len(),
            before_last_slash(t) == before_last_slash(chars@.take(j as int)),
            t == chars@.take(end as int),
        decreases j,
    {
        assert(chars@.take(j as int).drop_last() =~= chars@.take(j - 1));
        j = j - 1;
    }
    if j == 0 {
        assert(chars@.take(0) =~= Seq::<char>::empty());
        return from_chars(&['/']);
    }
    assert(chars@.take(j as int).drop_last() =~= chars@.take(j - 1));
    if j == 1 {
        return from_chars(&['/']);
    }
    let base = slice_subrange(chars.as_slice(), 0, j - 1);
    assert(base@ =~= chars@.take(j - 1));
    from_chars(base)
}

/// The label of an authentication choice in the connection form.
pub fn auth_kind_label(kind: crate::model::AuthKind) -> (r: &'static str)
    ensures
        kind == crate::model::AuthKind::PasswordOnly ==> r@ == "Password only"@,
        kind == crate::model::AuthKind::PrivateKey ==> r@ == "Private key"@,
        kind == crate::model::AuthKind::PrivateKeyWithPassword ==> r@ == "Private key + password"@,
{
    match kind {
        crate::model::AuthKind::PasswordOnly => "Password only",
        crate::model::AuthKind::PrivateKey => "Private key",
        crate::model::AuthKind::PrivateKeyWithPassword => "Private key + password",
    }
}

/// The height of a modal: its lines (taken modulo 65536, as a `u16`), plus
/// two for the border and two for the title, at most 65535.
pub open spec fn spec_modal_height(content_lines: nat, footer_lines: nat) -> nat {
    let total = (content_lines + footer_lines) % 65536;
    if total + 4 > 65535 {
        65535
    } else {
        total + 4
    }
}

/// The height of a modal with the given content and footer lines.
pub fn modal_height(content_lines: usize, footer_lines: usize) -> (r: u16)
    requires
        content_lines + footer_lines <= usize::MAX,
    ensures
        r == spec_modal_height(content_lines as nat, footer_lines as nat),
{
    let total = content_lines + footer_lines;
    let low = (total % 65536) as u16;
    if low > 65531 {
        65535
    } else {
        low + 4
    }
}

/// A truncated text fits its width, and a text that fits stays whole.
pub proof fn lemma_truncated_fits(value: Seq<char>, max_width: nat)
    ensures
        truncated(value, max_width).len() <= max_width,
        value.len() <= max_width ==> truncated(value, max_width) == value,
{
}

proof fn lemma_before_last_slash_shorter(s: Seq<char>)
    ensures
        before_last_slash(s) matches Some(b) ==> b.len() < s.len(),
    decreases s.len(),
{
    if s.len() > 0 && s.last() != '/' {
        lemma_before_last_slash_shorter(s.drop_last());
    }
}

proof fn lemma_trim_slashes_end_shorter(s: Seq<char>)
    ensures
        trim_slashes_end(s).len() <= s.len(),
    decreases s.len(),
{
    if s.len() > 0 && s.last() == '/' {
        lemma_trim_slashes_end_shorter(s.drop_last());
    }
}

/// Going up a remote directory either reaches the root or gives a shorter
/// path, so going up again and again ends at the root.
pub proof fn lemma_parent_remote_dir_shorter(path: Seq<char>)
    ensures
        spec_parent_remote_dir(path) == seq!['/'] || spec_parent_remote_dir(path).len() < path.len(),
{
    lemma_trim_slashes_end_shorter(path);
    lemma_before_last_slash_shorter(trim_slashes_end(path));
}

} // verus!
