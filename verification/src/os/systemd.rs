//! Escaping a filesystem path for use as a systemd unit instance name.
use vstd::prelude::*;
use crate::text::{chars_of, concat, push_char, string_from_chars};

verus! {

/// `s` without its leading and trailing slashes.
pub open spec fn trim_slashes(s: Seq<char>) -> Seq<char>
    decreases s.len(),
{
    if s.len() > 0 && s[0] == '/' {
        trim_slashes(s.skip(1))
    } else if s.len() > 0 && s.last() == '/' {
        trim_slashes(s.drop_last())
    } else {
        s
    }
}

/// The characters a unit name keeps as they are: ASCII letters and digits,
/// `:`, `_` and `.`.
pub open spec fn kept(c: char) -> bool {
    ||| ('a' as u32) <= (c as u32) <= ('z' as u32)
    ||| ('A' as u32) <= (c as u32) <= ('Z' as u32)
    ||| ('0' as u32) <= (c as u32) <= ('9' as u32)
    ||| c == ':'
    ||| c == '_'
    ||| c == '.'
}

/// The lowercase hexadecimal digit `d` (for `0 <= d < 16`).
pub open spec fn hex_digit(d: nat) -> char {
    if d < 10 {
        crate::text::digit_char(d as int)
    } else if d == 10 { 'a' } else if d == 11 { 'b' } else if d == 12 { 'c' } else if d == 13 { 'd' }
    else if d == 14 { 'e' } else { 'f' }
}

/// The UTF-8 encoding of `c`: one byte below U+0080, two below U+0800,
/// three below U+10000, else four (as `char::encode_utf8`).
pub open spec fn utf8_bytes(c: char) -> Seq<nat> {
    let n = (c as u32) as nat;
    if n < 0x80 {
        seq![n]
    } else if n < 0x800 {
        seq![0xc0 + n / 64, 0x80 + n % 64]
    } else if n < 0x10000 {
        seq![0xe0 + n / 4096, 0x80 + (n / 64) % 64, 0x80 + n % 64]
    } else {
        seq![0xf0 + n / 262144, 0x80 + (n / 4096) % 64, 0x80 + (n / 64) % 64, 0x80 + n % 64]
    }
}

/// The UTF-8 encoding of a character has one byte below U+0080, two below
/// U+0800, three below U+10000 and four above; a lone byte is the code
/// point itself, a lead byte of a longer encoding is `110xxxxx`, `1110xxxx`
/// or `11110xxx`, every further byte is `10xxxxxx`, and the bits of the
/// bytes, read in order, give back the code point.
pub proof fn lemma_utf8_bytes(c: char)
    ensures
        ({
            let n = (c as u32) as nat;
            let b = utf8_bytes(c);
            &&& n < 0x80 ==> b.len() == 1 && b[0] == n
            &&& 0x80 <= n < 0x800 ==> b.len() == 2 && 0xc0 <= b[0] < 0xe0
                && (b[0] - 0xc0) * 64 + (b[1] - 0x80) == n
            &&& 0x800 <= n < 0x10000 ==> b.len() == 3 && 0xe0 <= b[0] < 0xf0
                && (b[0] - 0xe0) * 4096 + (b[1] - 0x80) * 64 + (b[2] - 0x80) == n
            &&& 0x10000 <= n ==> b.len() == 4 && 0xf0 <= b[0] < 0xf8
                && (b[0] - 0xf0) * 262144 + (b[1] - 0x80) * 4096 + (b[2] - 0x80) * 64 + (b[3] - 0x80) == n
            &&& forall|i: int| 1 <= i < b.len() ==> 0x80 <= #[trigger] b[i] < 0xc0
        }),
{
    let n = (c as u32) as nat;
    assert(n <= 0x10ffff);
    assert((n / 64) * 64 + n % 64 == n) by (nonlinear_arith);
    assert((n / 4096) * 4096 + n % 4096 == n) by (nonlinear_arith);
    assert((n / 262144) * 262144 + n % 262144 == n) by (nonlinear_arith);
    assert(n % 4096 == ((n / 64) % 64) * 64 + n % 64) by (nonlinear_arith);
    assert(n % 262144 == ((n / 4096) % 64) * 4096 + n % 4096) by (nonlinear_arith);
    assert(n < 0x800 ==> n / 64 < 32) by (nonlinear_arith);
    assert(n < 0x10000 ==> n / 4096 < 16) by (nonlinear_arith);
    assert(n <= 0x10ffff ==> n / 262144 < 8) by (nonlinear_arith);
    assert(n < 0x800 ==> n % 4096 == n) by (nonlinear_arith);
    assert(n < 0x10000 ==> n % 262144 == n) by (nonlinear_arith);
}

/// The byte `b` written `\xHH`: two lowercase hexadecimal digits.
pub open spec fn byte_escape(b: nat) -> Seq<char> {
    seq!['\\', 'x', hex_digit(b / 16), hex_digit(b % 16)]
}

/// Each byte of `bs` written `\xHH`, in order.
pub open spec fn escape_bytes(bs: Seq<nat>) -> Seq<char>
    decreases bs.len(),
{
    if bs.len() == 0 {
        Seq::empty()
    } else {
        escape_bytes(bs.drop_last()) + byte_escape(bs.last())
    }
}

/// What the character at `i` of a trimmed path becomes: a slash becomes `-`
/// unless it follows another slash (then nothing), a kept character stays,
/// and any other is written as its UTF-8 bytes, each `\xHH`.
pub open spec fn escaped_at(s: Seq<char>, i: int) -> Seq<char> {
    if s[i] == '/' {
        if i > 0 && s[i - 1] == '/' {
            Seq::empty()
        } else {
            seq!['-']
        }
    } else if kept(s[i]) {
        seq![s[i]]
    } else {
        escape_bytes(utf8_bytes(s[i]))
    }
}

/// The escaped forms of the characters of `s`, in order.
pub open spec fn escape_chars(s: Seq<char>) -> Seq<char>
    decreases s.len(),
{
    if s.len() == 0 {
        Seq::empty()
    } else {
        escape_chars(s.drop_last()) + escaped_at(s, s.len() - 1)
    }
}

/// The escaped form of a path: `-` for the root (or a path of slashes only),
/// else its characters escaped once the outer slashes are gone.
pub open spec fn escape_path_spec(path: Seq<char>) -> Seq<char> {
    if trim_slashes(path).len() == 0 {
        seq!['-']
    } else {
        escape_chars(trim_slashes(path))
    }
}

proof fn lemma_escape_kept(s: Seq<char>)
    requires
        forall|i: int| 0 <= i < s.len() ==> kept(#[trigger] s[i]),
    ensures
        escape_chars(s) == s,
    decreases s.len(),
{
    if s.len() > 0 {
        let t = s.drop_last();
        assert forall|i: int| 0 <= i < t.len() implies kept(#[trigger] t[i]) by {
            assert(t[i] == s[i]);
        }
        lemma_escape_kept(t);
        assert(kept(s[s.len() - 1]));
        assert(s[s.len() - 1] != '/');
        assert(escape_chars(s) =~= s);
    }
}

/// A non-empty path made only of ASCII letters, digits, `:`, `_` and `.`
/// is its own escaped form.
pub proof fn lemma_escape_plain_name(s: Seq<char>)
    requires
        s.len() > 0,
        forall|i: int| 0 <= i < s.len() ==> kept(#[trigger] s[i]),
    ensures
        escape_path_spec(s) == s,
{
    assert(s[0] != '/' && kept(s[0]));
    assert(kept(s.last()));
    assert(trim_slashes(s) == s);
    lemma_escape_kept(s);
}

proof fn lemma_escape_joined(x: Seq<char>, y: Seq<char>)
    requires
        x.len() > 0,
        forall|i: int| 0 <= i < x.len() ==> kept(#[trigger] x[i]),
        forall|i: int| 0 <= i < y.len() ==> kept(#[trigger] y[i]),
    ensures
        escape_chars(x + seq!['/'] + y) == x + seq!['-'] + y,
    decreases y.len(),
{
    let s = x + seq!['/'] + y;
    if y.len() == 0 {
        lemma_escape_kept(x);
        assert(s.drop_last() =~= x);
        assert(s[s.len() - 2] == x.last());
        assert(kept(x.last()));
        assert(escape_chars(s) =~= x + seq!['-'] + y);
    } else {
        let yt = y.drop_last();
        assert forall|i: int| 0 <= i < yt.len() implies kept(#[trigger] yt[i]) by {
            assert(yt[i] == y[i]);
        }
        lemma_escape_joined(x, yt);
        assert(s.drop_last() =~= x + seq!['/'] + yt);
        assert(s.last() == y.last());
        assert(kept(y.last()));
        assert(escape_chars(s) =~= x + seq!['-'] + y);
    }
}

/// Each slash between two plain names becomes `-`: for names `x` and `y`
/// made only of ASCII letters, digits, `:`, `_` and `.`, the path
/// `/x/y` (or `x/y`) escapes to `x-y`.
pub proof fn lemma_escape_two_names(x: Seq<char>, y: Seq<char>)
    requires
        x.len() > 0,
        y.len() > 0,
        forall|i: int| 0 <= i < x.len() ==> kept(#[trigger] x[i]),
        forall|i: int| 0 <= i < y.len() ==> kept(#[trigger] y[i]),
    ensures
        escape_path_spec(x + seq!['/'] + y) == x + seq!['-'] + y,
        escape_path_spec(seq!['/'] + x + seq!['/'] + y) == x + seq!['-'] + y,
{
    let s = x + seq!['/'] + y;
    assert(s[0] == x[0] && kept(x[0]));
    assert(s.last() == y.last() && kept(y.last()));
    assert(trim_slashes(s) == s);
    let t = seq!['/'] + x + seq!['/'] + y;
    assert(t[0] == '/');
    assert(t.skip(1) =~= s);
    assert(trim_slashes(t) == trim_slashes(s));
    lemma_escape_joined(x, y);
}

fn hex_digit_exec(d: u32) -> (c: char)
    requires
        d < 16,
    ensures
        c == hex_digit(d as nat),
{
    if d == 0 { '0' } else if d == 1 { '1' } else if d == 2 { '2' } else if d == 3 { '3' }
    else if d == 4 { '4' } else if d == 5 { '5' } else if d == 6 { '6' } else if d == 7 { '7' }
    else if d == 8 { '8' } else if d == 9 { '9' } else if d == 10 { 'a' } else if d == 11 { 'b' }
    else if d == 12 { 'c' } else if d == 13 { 'd' } else if d == 14 { 'e' } else { 'f' }
}

/// The UTF-8 bytes of `c`.
fn utf8_bytes_exec(c: char) -> (v: Vec<u32>)
    ensures
        v@.len() == utf8_bytes(c).len(),
        forall|i: int| 0 <= i < v@.len() ==> #[trigger] v@[i] < 256,
        forall|i: int| 0 <= i < v@.len() ==> #[trigger] v@[i] as nat == utf8_bytes(c)[i],
{
    let n = c as u32;
    if n < 0x80 {
        vec![n]
    } else if n < 0x800 {
        vec![0xc0 + n / 64, 0x80 + n % 64]
    } else if n < 0x10000 {
        vec![0xe0 + n / 4096, 0x80 + (n / 64) % 64, 0x80 + n % 64]
    } else {
        vec![0xf0 + n / 262144, 0x80 + (n / 4096) % 64, 0x80 + (n / 64) % 64, 0x80 + n % 64]
    }
}

/// No hexadecimal digit is a slash.
proof fn lemma_escape_bytes_no_slash(bs: Seq<nat>)
    ensures
        !escape_bytes(bs).contains('/'),
    decreases bs.len(),
{
    if bs.len() > 0 {
        lemma_escape_bytes_no_slash(bs.drop_last());
        let e = escape_bytes(bs);
        let front = escape_bytes(bs.drop_last());
        let tail = byte_escape(bs.last());
        assert(e == front + tail);
        if e.contains('/') {
            let q = choose|q: int| 0 <= q < e.len() && e[q] == '/';
            if q < front.len() {
                assert(front[q] == '/');
            } else {
                assert(tail[q - front.len()] == '/');
            }
        }
    }
}

fn is_kept(c: char) -> (b: bool)
    ensures
        b == kept(c),
{
    let n = c as u32;
    (('a' as u32) <= n && n <= ('z' as u32)) || (('A' as u32) <= n && n <= ('Z' as u32))
        || (('0' as u32) <= n && n <= ('9' as u32)) || c == ':' || c == '_' || c == '.'
}

proof fn lemma_trim_is_range(s: Seq<char>) -> (r: (int, int))
    ensures
        0 <= r.0 <= r.1 <= s.len(),
        trim_slashes(s) == s.subrange(r.0, r.1),
        forall|i: int| 0 <= i < r.0 ==> s[i] == '/',
        forall|i: int| r.1 <= i < s.len() ==> s[i] == '/',
        r.0 < r.1 ==> s[r.0] != '/' && s[r.1 - 1] != '/',
        r.0 == r.1 ==> forall|i: int| 0 <= i < s.len() ==> s[i] == '/',
    decreases s.len(),
{
    if s.len() > 0 && s[0] == '/' {
        let t = lemma_trim_is_range(s.skip(1));
        assert(s.skip(1).subrange(t.0, t.1) =~= s.subrange(t.0 + 1, t.1 + 1));
        if t.0 == t.1 {
            assert forall|i: int| 0 <= i < s.len() implies s[i] == '/' by {
                if i > 0 {
                    assert(s.skip(1)[i - 1] == s[i]);
                }
            }
        }
        assert forall|i: int| 0 <= i < t.0 + 1 implies s[i] == '/' by {
            if i > 0 {
                assert(s.skip(1)[i - 1] == s[i]);
            }
        }
        assert forall|i: int| t.1 + 1 <= i < s.len() implies s[i] == '/' by {
            assert(s.skip(1)[i - 1] == s[i]);
        }
        (t.0 + 1, t.1 + 1)
    } else if s.len() > 0 && s.last() == '/' {
        let t = lemma_trim_is_range(s.drop_last());
        assert(s.drop_last().subrange(t.0, t.1) =~= s.subrange(t.0, t.1));
        assert forall|i: int| t.1 <= i < s.len() implies s[i] == '/' by {
            if i < s.len() - 1 {
                assert(s.drop_last()[i] == s[i]);
            }
        }
        if t.0 == t.1 {
            assert forall|i: int| 0 <= i < s.len() implies s[i] == '/' by {
                if i < s.len() - 1 {
                    assert(s.drop_last()[i] == s[i]);
                }
            }
        }
        assert forall|i: int| 0 <= i < t.0 implies s[i] == '/' by {
            assert(s.drop_last()[i] == s[i]);
        }
        t
    } else {
        assert(s.subrange(0, s.len() as int) =~= s);
        (0, s.len() as int)
    }
}

/// Escapes a filesystem path for use as a systemd unit instance name, as
/// `systemd-escape --path` does: the leading and trailing slashes go, each
/// run of slashes becomes one `-`, ASCII letters and digits and `:`, `_`, `.`
/// stay, and any other character is written as its UTF-8 bytes, each `\x`
/// and two lowercase hexadecimal digits. The root path becomes `-`.
/// The result is never empty and holds no slash.
pub fn escape_path(path: &str) -> (r: String)
    ensures
        r@ == escape_path_spec(path@),
        r@.len() > 0,
        !r@.contains('/'),
{
    let chars = chars_of(path);
    let n = chars.len();
    let mut a: usize = 0;
    while a < n && chars[a] == '/'
        invariant
            a <= n,
            n == chars@.len(),
            forall|i: int| 0 <= i < a ==> chars@[i] == '/',
        decreases n - a,
    {
        a = a + 1;
    }
    let mut b: usize = n;
    while b > a && chars[b - 1] == '/'
        invariant
            a <= b <= n,
            n == chars@.len(),
            forall|i: int| b <= i < n ==> chars@[i] == '/',
        decreases b,
    {
        b = b - 1;
    }
    let ghost t = chars@.subrange(a as int, b as int);
    proof {
        let (x, y) = lemma_trim_is_range(path@);
        // Both ranges are the unique maximal trim.
        if x < y {
            assert(x == a) by {
                if x < a {
                    assert(chars@[x] == '/');
                } else if a < x {
                    assert(a < n);
                }
            }
            assert(y == b) by {
                if y < b {
                    assert(chars@[b - 1] == '/');
                } else if b < y {
                    assert(chars@[y - 1] != '/');
                    assert(b <= y - 1);
                }
            }
        } else {
            assert(a == b) by {
                if a < b {
                    assert(chars@[a as int] != '/' || a == n);
                }
            }
            assert(trim_slashes(path@).len() == 0);
        }
        assert(trim_slashes(path@) =~= t);
    }
    if a == b {
        proof {
            reveal_strlit("-");
        }
        return String::from_str("-");
    }
    let mut out: Vec<char> = Vec::new();
    let mut i: usize = a;
    proof {
        assert(t.take(0) =~= Seq::<char>::empty());
    }
    while i < b
        invariant
            a <= i <= b <= n,
            n == chars@.len(),
            t == chars@.subrange(a as int, b as int),
            out@ == escape_chars(t.take(i - a)),
            !out@.contains('/'),
        decreases b - i,
    {
        let c = chars[i];
        let ghost before = out@;
        let ghost k = i - a;
        proof {
            assert(t.take(k + 1).drop_last() =~= t.take(k));
            assert(t.take(k + 1)[k] == c);
            if k > 0 {
                assert(t.take(k + 1)[k - 1] == chars@[i - 1]);
            }
        }
        if c == '/' {
            if !(i > a && chars[i - 1] == '/') {
                out.push('-');
            }
        } else if is_kept(c) {
            out.push(c);
        } else {
            let bytes = utf8_bytes_exec(c);
            let ghost bs = utf8_bytes(c);
            let mut j: usize = 0;
            proof {
                assert(bs.take(0) =~= Seq::<nat>::empty());
                assert(out@ =~= before + escape_bytes(bs.take(0)));
            }
            while j < bytes.len()
                invariant
                    j <= bytes@.len(),
                    bytes@.len() == bs.len(),
                    bs == utf8_bytes(c),
                    forall|x: int| 0 <= x < bytes@.len() ==> #[trigger] bytes@[x] < 256,
                    forall|x: int| 0 <= x < bytes@.len() ==> #[trigger] bytes@[x] as nat == bs[x],
                    out@ == before + escape_bytes(bs.take(j as int)),
                decreases bytes@.len() - j,
            {
                let byte = bytes[j];
                assert(bytes@[j as int] < 256);
                out.push('\\');
                out.push('x');
                out.push(hex_digit_exec(byte / 16));
                out.push(hex_digit_exec(byte % 16));
                proof {
                    assert(bs.take(j + 1).drop_last() =~= bs.take(j as int));
                    assert(bs.take(j + 1).last() == byte as nat);
                    assert(out@ =~= before + escape_bytes(bs.take(j + 1)));
                }
                j = j + 1;
            }
            proof {
                assert(bs.take(bs.len() as int) =~= bs);
                lemma_escape_bytes_no_slash(bs);
            }
        }
        proof {
            assert(out@ =~= before + escaped_at(t.take(k + 1), k));
            assert(!out@.contains('/')) by {
                if out@.contains('/') {
                    let q = choose|q: int| 0 <= q < out@.len() && out@[q] == '/';
                    if q < before.len() {
                        assert(before[q] == '/');
                    }
                }
            }
        }
        i = i + 1;
    }
    proof {
        assert(t.take(b - a) =~= t);
    }
    string_from_chars(&out)
}

/// The systemd path unit that watches the project at `path`.
pub fn unit_name(path: &str) -> (r: String)
    ensures
        r@ == "kiro-generator-local@"@ + escape_path_spec(path@) + ".path"@,
{
    let escaped = escape_path(path);
    let mut r = concat("kiro-generator-local@", escaped.as_str());
    r.append(".path");
    r
}

} // verus!
