use vstd::prelude::*;
use vstd::string::StringSliceAdditionalSpecFns;
use vstd::string::StrSliceExecFns;
use vstd::string::StringExecFns;

verus! {

/// The decimal digit `d`.
pub open spec fn digit_char(d: int) -> char {
    seq!['0', '1', '2', '3', '4', '5', '6', '7', '8', '9'][d]
}

/// The decimal representation of `n`, without leading zeros.
pub open spec fn decimal(n: nat) -> Seq<char>
    decreases n,
{
    if n < 10 {
        seq![digit_char(n as int)]
    } else {
        decimal(n / 10).push(digit_char((n % 10) as int))
    }
}

/// `format!("{}", n)`: the decimal representation of `n`, as `Display` for
/// unsigned integers writes it.
#[verifier::external_body]
pub(crate) fn decimal_string(n: u64) -> (s: String)
    ensures
        s@ == decimal(n as nat),
{
    format!("{}", n)
}

/// `n` spaces.
pub open spec fn spaces(n: nat) -> Seq<char> {
    Seq::new(n, |i: int| ' ')
}

/// `s` padded on the right with spaces to `width` characters, as `{:<width$}` writes it.
pub open spec fn pad_right(s: Seq<char>, width: nat) -> Seq<char> {
    if s.len() < width {
        s + spaces((width - s.len()) as nat)
    } else {
        s
    }
}

/// `s` repeated `n` times.
pub open spec fn repeated(s: Seq<char>, n: nat) -> Seq<char>
    decreases n,
{
    if n == 0 {
        Seq::empty()
    } else {
        repeated(s, (n - 1) as nat) + s
    }
}

/// Appends `n` spaces.
pub fn push_spaces(out: &mut String, n: usize)
    ensures
        final(out)@ == old(out)@ + spaces(n as nat),
{
    let mut k: usize = 0;
    while k < n
        invariant
            k <= n,
            out@ == old(out)@ + spaces(k as nat),
        decreases n - k,
    {
        out.append(" ");
        proof {
            reveal_strlit(" ");
        }
        k = k + 1;
        assert(out@ =~= old(out)@ + spaces(k as nat));
    }
}

/// Appends `s` padded on the right to `width` characters.
pub fn push_padded(out: &mut String, s: &str, width: usize)
    ensures
        final(out)@ == old(out)@ + pad_right(s@, width as nat),
{
    let n = s.unicode_len();
    out.append(s);
    if n < width {
        push_spaces(out, width - n);
        assert(out@ =~= old(out)@ + pad_right(s@, width as nat));
    }
}

/// `s` repeated `n` times.
pub fn repeat_str(s: &str, n: usize) -> (r: String)
    ensures
        r@ == repeated(s@, n as nat),
{
    let mut r = String::new();
    let mut k: usize = 0;
    while k < n
        invariant
            k <= n,
            r@ == repeated(s@, k as nat),
        decreases n - k,
    {
        r.append(s);
        k = k + 1;
    }
    r
}

/// The UTF-8 encoding of `s` is at most `max` bytes long, or `max` falls on a
/// character boundary of it.
pub open spec fn fits_or_cuts_cleanly(s: Seq<char>, max: nat) -> bool {
    vstd::utf8::encode_utf8(s).len() <= max || vstd::utf8::is_char_boundary(vstd::utf8::encode_utf8(s), max as int)
}

/// The characters of `s` whose UTF-8 encoding fits in its first `max` bytes: all of
/// `s` if it is that short, else the text those bytes decode to.
pub open spec fn cut_chars(s: Seq<char>, max: nat) -> Seq<char> {
    if vstd::utf8::encode_utf8(s).len() <= max {
        s
    } else {
        vstd::utf8::decode_utf8(vstd::utf8::encode_utf8(s).subrange(0, max as int))
    }
}

/// `s` cut to its first `max` bytes, as `&s[..max]` does when `s` is longer.
pub fn truncate_bytes(s: &str, max: usize) -> (r: &str)
    requires
        s.spec_bytes().len() <= usize::MAX,
        fits_or_cuts_cleanly(s@, max as nat),
    ensures
        r@ == cut_chars(s@, max as nat),
        s.spec_bytes().len() > max ==> r.spec_bytes() == s.spec_bytes().subrange(0, max as int),
{
    if s.len() > max {
        let (head, _tail) = s.split_at(max);
        proof {
            vstd::utf8::encode_utf8_decode_utf8(head@);
        }
        head
    } else {
        s
    }
}

/// The number a string of decimal digits denotes.
pub open spec fn decimal_value(s: Seq<char>) -> int
    decreases s.len(),
{
    if s.len() == 0 {
        0
    } else {
        decimal_value(s.drop_last()) * 10 + (s.last() as int - '0' as int)
    }
}

proof fn lemma_digit_char(d: int)
    requires
        0 <= d < 10,
    ensures
        digit_char(d) as int == '0' as int + d,
{
    let t = seq!['0', '1', '2', '3', '4', '5', '6', '7', '8', '9'];
    assert(digit_char(d) == t[d]);
    if d == 0 {
    } else if d == 1 {
    } else if d == 2 {
    } else if d == 3 {
    } else if d == 4 {
    } else if d == 5 {
    } else if d == 6 {
    } else if d == 7 {
    } else if d == 8 {
    } else {
    }
}

/// The decimal representation is made of digits, has no leading zero (but for zero
/// itself), and denotes the number.
pub proof fn lemma_decimal_denotes(n: nat)
    ensures
        decimal(n).len() > 0,
        forall|i: int| 0 <= i < decimal(n).len() ==> '0' <= #[trigger] decimal(n)[i] <= '9',
        decimal(n).len() > 1 ==> decimal(n)[0] != '0',
        decimal_value(decimal(n)) == n,
    decreases n,
{
    let d = decimal(n);
    if n < 10 {
        lemma_digit_char(n as int);
        assert(d.drop_last() =~= Seq::<char>::empty());
        assert(decimal_value(d) == decimal_value(d.drop_last()) * 10 + (d.last() as int - '0' as int));
    } else {
        lemma_decimal_denotes(n / 10);
        let h = decimal(n / 10);
        lemma_digit_char((n % 10) as int);
        assert(d == h.push(digit_char((n % 10) as int)));
        assert(d.drop_last() =~= h);
        assert(d[0] == h[0]);
        assert forall|i: int| 0 <= i < d.len() implies '0' <= #[trigger] d[i] <= '9' by {
            if i < h.len() {
                assert(d[i] == h[i]);
            }
        }
        if n / 10 < 10 {
            lemma_digit_char((n / 10) as int);
            assert(h[0] == digit_char((n / 10) as int));
        } else {
            lemma_decimal_denotes(n / 10 / 10);
            assert(h == decimal(n / 10 / 10).push(digit_char((n / 10 % 10) as int)));
            assert(h.len() > 1);
        }
        assert(decimal_value(d) == decimal_value(h) * 10 + (n % 10));
        assert(n == (n / 10) * 10 + n % 10);
    }
}

/// Padding to `width` keeps the text in front and fills up with spaces to the width; a
/// text that is already that wide is left as it is.
pub proof fn lemma_pad_right(s: Seq<char>, width: nat)
    ensures
        pad_right(s, width).len() == if s.len() < width {
            width
        } else {
            s.len()
        },
        pad_right(s, width).subrange(0, s.len() as int) == s,
        forall|i: int| s.len() <= i < pad_right(s, width).len() ==> #[trigger] pad_right(s, width)[i] == ' ',
{
    assert(pad_right(s, width).subrange(0, s.len() as int) =~= s);
}

/// `s` repeated `n` times is `n` copies of `s`, one after the other.
pub proof fn lemma_repeated(s: Seq<char>, n: nat)
    ensures
        repeated(s, n).len() == n * s.len(),
        forall|k: int, i: int|
            0 <= k < n && 0 <= i < s.len() ==> #[trigger] repeated(s, n)[k * s.len() + i] == s[i],
    decreases n,
{
    if n == 0 {
        assert(n * s.len() == 0) by (nonlinear_arith)
            requires
                n == 0,
        ;
    } else {
        let m = (n - 1) as nat;
        lemma_repeated(s, m);
        let r = repeated(s, n);
        let p = repeated(s, m);
        assert(r == p + s);
        assert(r.len() == p.len() + s.len());
        assert(m * s.len() + s.len() == n * s.len()) by (nonlinear_arith)
            requires
                m + 1 == n,
        ;
        assert forall|k: int, i: int| 0 <= k < n && 0 <= i < s.len() implies #[trigger] r[k * s.len() + i] == s[i] by {
            if k < m {
                assert(k * s.len() + i < m * s.len()) by (nonlinear_arith)
                    requires
                        0 <= k < m,
                        0 <= i < s.len(),
                ;
                assert(0 <= k * s.len()) by (nonlinear_arith)
                    requires
                        0 <= k,
                ;
                assert(r[k * s.len() + i] == p[k * s.len() + i]);
            } else {
                assert(k == m);
                assert(r[k * s.len() + i] == s[i]);
            }
        }
    }
}

} // verus!
