//! Numbers shown to the user: decimal digits, byte sizes in B / KB / MB with two
//! decimals, and the status label of a response.

use vstd::prelude::*;

verus! {

/// The decimal digit character for `d` (`d < 10`).
pub open spec fn digit_char(d: nat) -> char {
    if d == 0 {
        '0'
    } else if d == 1 {
        '1'
    } else if d == 2 {
        '2'
    } else if d == 3 {
        '3'
    } else if d == 4 {
        '4'
    } else if d == 5 {
        '5'
    } else if d == 6 {
        '6'
    } else if d == 7 {
        '7'
    } else if d == 8 {
        '8'
    } else {
        '9'
    }
}

/// The decimal notation of `n`, without leading zeros.
pub open spec fn decimal(n: nat) -> Seq<char>
    decreases n,
{
    if n < 10 {
        seq![digit_char(n)]
    } else {
        decimal(n / 10).push(digit_char(n % 10))
    }
}

fn digit_str(d: u64) -> (r: &'static str)
    requires
        d < 10,
    ensures
        r@ == seq![digit_char(d as nat)],
{
    if d == 0 {
        proof {
            reveal_strlit("0");
        }
        assert("0"@ =~= seq!['0']);
        "0"
    } else if d == 1 {
        proof {
            reveal_strlit("1");
        }
        assert("1"@ =~= seq!['1']);
        "1"
    } else if d == 2 {
        proof {
            reveal_strlit("2");
        }
        assert("2"@ =~= seq!['2']);
        "2"
    } else if d == 3 {
        proof {
            reveal_strlit("3");
        }
        assert("3"@ =~= seq!['3']);
        "3"
    } else if d == 4 {
        proof {
            reveal_strlit("4");
        }
        assert("4"@ =~= seq!['4']);
        "4"
    } else if d == 5 {
        proof {
            reveal_strlit("5");
        }
        assert("5"@ =~= seq!['5']);
        "5"
    } else if d == 6 {
        proof {
            reveal_strlit("6");
        }
        assert("6"@ =~= seq!['6']);
        "6"
    } else if d == 7 {
        proof {
            reveal_strlit("7");
        }
        assert("7"@ =~= seq!['7']);
        "7"
    } else if d == 8 {
        proof {
            reveal_strlit("8");
        }
        assert("8"@ =~= seq!['8']);
        "8"
    } else {
        proof {
            reveal_strlit("9");
        }
        assert("9"@ =~= seq!['9']);
        "9"
    }
}

/// Appends the decimal notation of `n` to `out`.
pub fn push_decimal(out: &mut String, n: u64)
    ensures
        final(out)@ == old(out)@ + decimal(n as nat),
    decreases n,
{
    if n >= 10 {
        push_decimal(out, n / 10);
    }
    out.append(digit_str(n % 10));
    proof {
        if n >= 10 {
            assert(old(out)@ + decimal((n / 10) as nat) + seq![digit_char((n % 10) as nat)]
                =~= old(out)@ + decimal(n as nat));
        } else {
            assert(old(out)@ + seq![digit_char((n % 10) as nat)] =~= old(out)@ + decimal(
                n as nat,
            ));
        }
    }
}


/// `2` to the power `e`.
pub open spec fn two_to(e: nat) -> nat
    decreases e,
{
    if e == 0 {
        1
    } else {
        2 * two_to((e - 1) as nat)
    }
}

/// `a / d` rounded to the nearest integer, ties to the even neighbour.
pub open spec fn round_half_even(a: nat, d: nat) -> nat
    recommends
        d > 0,
{
    let q = a / d;
    let r = a % d;
    if 2 * r > d || (2 * r == d && q % 2 == 1) {
        q + 1
    } else {
        q
    }
}

/// How many low bits of `n` an `f64` cannot hold: `n` needs `53 + f64_shift(n)` bits.
pub open spec fn f64_shift(n: nat) -> nat
    decreases n,
{
    if n < 0x20_0000_0000_0000 {
        0
    } else {
        1 + f64_shift(n / 2)
    }
}

/// The value of `n as f64`: `n` rounded to 53 significant bits, ties to even.
pub open spec fn f64_value(n: nat) -> nat {
    let d = two_to(f64_shift(n));
    round_half_even(n, d) * d
}

/// A count of hundredths `h` written with two decimals, as `{:.2}` writes it.
pub open spec fn fixed_two(h: nat) -> Seq<char> {
    decimal(h / 100) + seq!['.', digit_char((h / 10) % 10), digit_char(h % 10)]
}

/// One mebibyte.
pub const MIB: u64 = 1048576;

/// One kibibyte.
pub const KIB: u64 = 1024;

/// The text that `human_size` shows for `n` bytes: megabytes or kilobytes with two
/// decimals (of the `f64` value of `n`, rounded half to even), or the plain count.
pub open spec fn size_text(n: nat) -> Seq<char> {
    let v = f64_value(n);
    if v >= MIB {
        fixed_two(round_half_even(v * 100, MIB as nat)) + seq![' ', 'M', 'B']
    } else if v >= KIB {
        fixed_two(round_half_even(v * 100, KIB as nat)) + seq![' ', 'K', 'B']
    } else {
        decimal(n) + seq![' ', 'B']
    }
}

/// `n as f64`, as an exact integer.
fn as_f64_value(n: u64) -> (v: u128)
    ensures
        v == f64_value(n as nat),
        v <= 0x4_0000_0000_0000_0000,
{
    let mut m: u64 = n;
    let mut d: u128 = 1;
    let ghost mut e: nat = 0;
    while m >= 0x20_0000_0000_0000
        invariant
            d == two_to(e),
            d > 0,
            m == n as nat / d as nat,
            f64_shift(n as nat) == e + f64_shift(m as nat),
            d <= 2 * (n as nat) + 2,
        decreases m,
    {
        assert(d <= n) by (nonlinear_arith)
            requires
                m == n as nat / d as nat,
                m >= 1,
                d > 0,
        {
            vstd::arithmetic::div_mod::lemma_fundamental_div_mod(n as int, d as int);
        }
        proof {
            vstd::arithmetic::div_mod::lemma_div_denominator(n as int, d as int, 2);
        }
        m = m / 2;
        d = d * 2;
        proof {
            e = e + 1;
        }
    }
    let q: u128 = n as u128 / d;
    let r: u128 = n as u128 % d;
    assert(q == m);
    let rounded: u128 = if 2 * r > d || (2 * r == d && q % 2 == 1) {
        q + 1
    } else {
        q
    };
    assert(rounded * d <= n as nat + d) by (nonlinear_arith)
        requires
            rounded <= q + 1,
            q == n as nat / d as nat,
            d > 0,
    {
        vstd::arithmetic::div_mod::lemma_fundamental_div_mod(n as int, d as int);
    }
    rounded * d
}

/// Appends a count of hundredths with two decimals.
fn push_fixed_two(out: &mut String, h: u128)
    requires
        h / 100 <= u64::MAX,
    ensures
        final(out)@ == old(out)@ + fixed_two(h as nat),
{
    push_decimal(out, (h / 100) as u64);
    proof {
        reveal_strlit(".");
    }
    out.append(".");
    out.append(digit_str(((h / 10) % 10) as u64));
    out.append(digit_str((h % 10) as u64));
    assert(final(out)@ =~= old(out)@ + fixed_two(h as nat)) by {
        assert("."@ =~= seq!['.']);
    }
}

/// `a / d` rounded to the nearest integer, ties to the even one.
fn div_round_half_even(a: u128, d: u128) -> (r: u128)
    requires
        d > 0,
    ensures
        r == round_half_even(a as nat, d as nat),
        r <= a / d + 1,
{
    let q: u128 = a / d;
    let r: u128 = a % d;
    assert(r < d);
    if r > d - r || (r == d - r && q % 2 == 1) {
        assert(q < u128::MAX) by (nonlinear_arith)
            requires
                q == a / d,
                d > 0,
                r < d,
                r > 0,
                r == a % d,
        {
            vstd::arithmetic::div_mod::lemma_fundamental_div_mod(a as int, d as int);
        }
        q + 1
    } else {
        q
    }
}

/// A byte count for display: "1.50 MB", "2.00 KB" or "512 B".
#[verifier::rlimit(40)]
pub fn human_size(bytes: usize) -> (r: String)
    ensures
        r@ == size_text(bytes as nat),
{
    let v: u128 = as_f64_value(bytes as u64);
    let mut out = String::new();
    if v >= MIB as u128 {
        let h: u128 = div_round_half_even(v * 100, MIB as u128);
        assert(h / 100 <= u64::MAX) by (nonlinear_arith)
            requires
                h <= (v * 100) / 1048576int + 1,
                v <= 0x4_0000_0000_0000_0000,
        ;
        push_fixed_two(&mut out, h);
        proof {
            reveal_strlit(" MB");
        }
        out.append(" MB");
        assert(out@ =~= size_text(bytes as nat)) by {
            assert(" MB"@ =~= seq![' ', 'M', 'B']);
        }
    } else if v >= KIB as u128 {
        let h: u128 = div_round_half_even(v * 100, KIB as u128);
        assert(h / 100 <= u64::MAX) by (nonlinear_arith)
            requires
                h <= (v * 100) / 1024int + 1,
                v < MIB,
        ;
        push_fixed_two(&mut out, h);
        proof {
            reveal_strlit(" KB");
        }
        out.append(" KB");
        assert(out@ =~= size_text(bytes as nat)) by {
            assert(" KB"@ =~= seq![' ', 'K', 'B']);
        }
    } else {
        push_decimal(&mut out, bytes as u64);
        proof {
            reveal_strlit(" B");
        }
        out.append(" B");
        assert(out@ =~= size_text(bytes as nat)) by {
            assert(" B"@ =~= seq![' ', 'B']);
        }
    }
    out
}


/// The label of a response status: the code, then its reason phrase when there is one.
pub open spec fn status_label_text(status: nat, reason: Seq<char>) -> Seq<char> {
    if reason.len() == 0 {
        decimal(status)
    } else {
        decimal(status) + seq![' '] + reason
    }
}

/// "200 OK", or "599" where no reason phrase is known.
pub fn status_label(status: u16, reason: &str) -> (r: String)
    ensures
        r@ == status_label_text(status as nat, reason@),
{
    let mut out = String::new();
    push_decimal(&mut out, status as u64);
    if !reason.is_empty() {
        proof {
            reveal_strlit(" ");
        }
        out.append(" ");
        out.append(reason);
        assert(" "@ =~= seq![' ']);
    }
    assert(out@ =~= status_label_text(status as nat, reason@));
    out
}


/// The number that a run of decimal digits stands for.
pub open spec fn digits_value(s: Seq<char>) -> nat
    decreases s.len(),
{
    if s.len() == 0 {
        0
    } else {
        digits_value(s.drop_last()) * 10 + ((s.last() as u32) - ('0' as u32)) as nat
    }
}

/// Whether `c` is one of the characters `0` to `9`.
pub open spec fn is_digit(c: char) -> bool {
    '0' <= c && c <= '9'
}

proof fn lemma_digit_value(d: nat)
    requires
        d < 10,
    ensures
        is_digit(digit_char(d)),
        (digit_char(d) as u32) - ('0' as u32) == d,
        d > 0 ==> digit_char(d) != '0',
{
}

/// The decimal notation of a number is a non-empty run of digits, without a leading zero
/// (except for zero itself), that reads back as the number.
pub proof fn law_decimal_reads_back(n: nat)
    ensures
        decimal(n).len() >= 1,
        forall|i: int| 0 <= i < decimal(n).len() ==> is_digit(#[trigger] decimal(n)[i]),
        n > 0 ==> decimal(n)[0] != '0',
        digits_value(decimal(n)) == n,
    decreases n,
{
    lemma_digit_value(n % 10);
    if n < 10 {
        assert(decimal(n).drop_last() =~= Seq::<char>::empty());
        assert(n % 10 == n);
        assert(digits_value(Seq::<char>::empty()) == 0);
        assert(decimal(n).last() == digit_char(n));
    }
    if n >= 10 {
        law_decimal_reads_back(n / 10);
        assert(n == (n / 10) * 10 + n % 10) by {
            vstd::arithmetic::div_mod::lemma_fundamental_div_mod(n as int, 10);
        }
        let d = decimal(n / 10);
        assert(decimal(n).drop_last() =~= d);
        assert(decimal(n)[0] == d[0]);
        assert(decimal(n).last() == digit_char(n % 10));
        assert(digits_value(decimal(n)) == digits_value(d) * 10 + (n % 10));
        assert forall|i: int| 0 <= i < decimal(n).len() implies is_digit(#[trigger] decimal(n)[i]) by {
            if i < d.len() {
                assert(decimal(n)[i] == d[i]);
            }
        }
    }
}

/// Rounding goes to the nearest whole number, and a tie goes to the even one.
pub proof fn law_rounding_is_to_nearest_even(a: nat, d: nat)
    requires
        d > 0,
    ensures
        2 * (round_half_even(a, d) * d - a) <= d,
        2 * (a - round_half_even(a, d) * d) <= d,
        2 * (a % d) == d ==> round_half_even(a, d) % 2 == 0,
{
    let q = a / d;
    let r = a % d;
    let h = round_half_even(a, d);
    assert(a == d * q + r) by {
        vstd::arithmetic::div_mod::lemma_fundamental_div_mod(a as int, d as int);
    }
    assert(r < d) by {
        vstd::arithmetic::div_mod::lemma_mod_bound(a as int, d as int);
    }
    if 2 * r > d || (2 * r == d && q % 2 == 1) {
        assert(h == q + 1);
        assert(2 * (h * d - a) <= d && 2 * (a - h * d) <= d) by (nonlinear_arith)
            requires
                h == q + 1,
                a == d * q + r,
                2 * r >= d,
                r < d,
        ;
    } else {
        assert(h == q);
        assert(2 * (h * d - a) <= d && 2 * (a - h * d) <= d) by (nonlinear_arith)
            requires
                h == q,
                a == d * q + r,
                2 * r <= d,
        ;
    }
}

proof fn lemma_small_value_is_exact(n: nat)
    requires
        n < 0x20_0000_0000_0000,
    ensures
        f64_value(n) == n,
{
    assert(f64_shift(n) == 0);
    assert(two_to(0) == 1);
    assert(n / 1 == n && n % 1 == 0) by (nonlinear_arith);
}

/// Counts under a kibibyte are shown as the count of bytes: "512 B".
pub proof fn law_small_sizes_in_bytes(n: nat)
    requires
        n < 1024,
    ensures
        size_text(n) == decimal(n) + seq![' ', 'B'],
{
    lemma_small_value_is_exact(n);
}

proof fn lemma_fixed_two_whole(k: nat, half: bool)
    ensures
        fixed_two(100 * k + if half { 50nat } else { 0nat }) == decimal(k) + seq![
            '.',
            if half {
                '5'
            } else {
                '0'
            },
            '0',
        ],
{
    let h = 100 * k + if half { 50nat } else { 0nat };
    assert(h / 100 == k && (h / 10) % 10 == (if half { 5nat } else { 0nat }) && h % 10 == 0)
        by (nonlinear_arith)
        requires
            h == 100 * k + if half { 50nat } else { 0nat },
    ;
}

/// A whole number of kibibytes under a mebibyte is shown with ".00 KB", and a whole
/// number and a half with ".50 KB": 2048 bytes are "2.00 KB", 1536 are "1.50 KB".
pub proof fn law_whole_and_half_kibibytes(k: nat, half: bool)
    requires
        1 <= k < 1024,
    ensures
        size_text(1024 * k + if half { 512nat } else { 0nat }) == decimal(k) + seq![
            '.',
            if half {
                '5'
            } else {
                '0'
            },
            '0',
            ' ',
            'K',
            'B',
        ],
{
    let n = 1024 * k + if half { 512nat } else { 0nat };
    lemma_small_value_is_exact(n);
    let h = 100 * k + if half { 50nat } else { 0nat };
    assert(round_half_even(n * 100, 1024) == h) by {
        assert((n * 100) / 1024 == h && (n * 100) % 1024 == 0) by (nonlinear_arith)
            requires
                n == 1024 * k + if half { 512nat } else { 0nat },
                h == 100 * k + if half { 50nat } else { 0nat },
        ;
    }
    assert(n >= 1024 && n < 1048576);
    lemma_fixed_two_whole(k, half);
    assert(fixed_two(h) + seq![' ', 'K', 'B'] =~= decimal(k) + seq![
        '.',
        if half {
            '5'
        } else {
            '0'
        },
        '0',
        ' ',
        'K',
        'B',
    ]);
}

/// A whole number of mebibytes is shown with ".00 MB": 52428800 bytes are "50.00 MB".
pub proof fn law_whole_mebibytes(k: nat)
    requires
        1 <= k < 0x2_0000_0000,
    ensures
        size_text(1048576 * k) == decimal(k) + seq!['.', '0', '0', ' ', 'M', 'B'],
{
    let n = 1048576 * k;
    assert(n < 0x20_0000_0000_0000) by (nonlinear_arith)
        requires
            n == 1048576 * k,
            k < 0x2_0000_0000,
    ;
    lemma_small_value_is_exact(n);
    assert(round_half_even(n * 100, 1048576) == 100 * k) by {
        assert((n * 100) / 1048576 == 100 * k && (n * 100) % 1048576 == 0) by (nonlinear_arith)
            requires
                n == 1048576 * k,
        ;
    }
    lemma_fixed_two_whole(k, false);
    assert(fixed_two(100 * k + 0nat) + seq![' ', 'M', 'B'] =~= decimal(k) + seq![
        '.',
        '0',
        '0',
        ' ',
        'M',
        'B',
    ]);
}

} // verus!
