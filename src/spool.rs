//! Where rendered pages are spooled: the job's workspace directory, one PNG
//! file per page named by its zero-padded ordinal, and the pixel size of a
//! page at a given resolution.

use vstd::prelude::*;
use vstd::arithmetic::div_mod::{lemma_fundamental_div_mod, lemma_mod_pos_bound};
use crate::text::{decimal, digit_char, padded4, zeros, push_char, push_decimal, push_padded4, push_str, lemma_decimal_len};

verus! {

/// The name of a job's workspace inside the temporary root, before its timestamp.
pub const WORKSPACE_PREFIX: &'static str = "pdf2key_";

/// The start of every spooled file's name.
pub const SLIDE_PREFIX: &'static str = "slide_";

/// The extension of every spooled file.
pub const SLIDE_EXTENSION: &'static str = ".png";

/// The workspace of a job started at `nanos` nanoseconds after the epoch.
pub open spec fn workspace_dir_spec(temp_root: Seq<char>, nanos: nat) -> Seq<char> {
    temp_root + seq!['/'] + WORKSPACE_PREFIX@ + decimal(nanos)
}

/// The file name under which page `ordinal` is spooled.
pub open spec fn slide_file_name_spec(ordinal: nat) -> Seq<char> {
    SLIDE_PREFIX@ + padded4(ordinal) + SLIDE_EXTENSION@
}

/// The full path under which page `ordinal` is spooled in `workspace`.
pub open spec fn slide_path_spec(workspace: Seq<char>, ordinal: nat) -> Seq<char> {
    workspace + seq!['/'] + slide_file_name_spec(ordinal)
}

/// The workspace directory of a job: `<temp_root>/pdf2key_<nanos>`.
pub fn workspace_dir(temp_root: &str, nanos: u128) -> (r: String)
    ensures
        r@ == workspace_dir_spec(temp_root@, nanos as nat),
{
    let mut r = String::from_str(temp_root);
    push_char(&mut r, '/');
    push_str(&mut r, WORKSPACE_PREFIX);
    push_decimal(&mut r, nanos);
    r
}

/// The spool file name of page `ordinal`: `slide_<ordinal>.png`, the ordinal
/// zero-padded to four digits.
pub fn slide_file_name(ordinal: u64) -> (r: String)
    ensures
        r@ == slide_file_name_spec(ordinal as nat),
{
    let mut r = String::from_str(SLIDE_PREFIX);
    push_padded4(&mut r, ordinal);
    push_str(&mut r, SLIDE_EXTENSION);
    r
}

/// The spool path of page `ordinal` inside `workspace`.
pub fn slide_path(workspace: &str, ordinal: u64) -> (r: String)
    ensures
        r@ == slide_path_spec(workspace@, ordinal as nat),
{
    let mut r = String::from_str(workspace);
    push_char(&mut r, '/');
    let name = slide_file_name(ordinal);
    push_str(&mut r, name.as_str());
    r
}

/// The pixel length of a page side of `numerator / denominator` points at
/// `dpi` dots per inch, 72 points to the inch, rounded to the nearest integer
/// (halves up): `r` is the integer with
/// `r - 1/2 <= side * dpi / 72 < r + 1/2`.
pub fn target_pixels(numerator: u64, denominator: u64, dpi: u16) -> (r: u128)
    requires
        denominator > 0,
    ensures
        r * 144 * denominator <= 2 * numerator * dpi + 72 * denominator < (r + 1) * 144
            * denominator,
{
    let n: u128 = numerator as u128;
    let d: u128 = denominator as u128;
    let k: u128 = dpi as u128;
    assert(2 * n * k + 72 * d <= 0x1_0000_0000_0000_0000_0000_0000u128) by (nonlinear_arith)
        requires
            n <= 0xffff_ffff_ffff_ffffu128,
            d <= 0xffff_ffff_ffff_ffffu128,
            k <= 0xffffu128,
    ;
    let x: u128 = 2 * n * k + 72 * d;
    let m: u128 = 144 * d;
    let r = x / m;
    proof {
        lemma_fundamental_div_mod(x as int, m as int);
        lemma_mod_pos_bound(x as int, m as int);
        assert(r * 144 * denominator == m * r) by (nonlinear_arith)
            requires
                m == 144 * denominator,
        ;
        assert((r + 1) * 144 * denominator == m * r + m) by (nonlinear_arith)
            requires
                m == 144 * denominator,
        ;
    }
    r
}

/// Strict lexicographic order of character sequences, by code point: the order
/// in which file names sort.
pub open spec fn lex_less(a: Seq<char>, b: Seq<char>) -> bool
    decreases a.len(),
{
    if a.len() == 0 {
        b.len() > 0
    } else if b.len() == 0 {
        false
    } else if a[0] != b[0] {
        (a[0] as u32) < (b[0] as u32)
    } else {
        lex_less(a.drop_first(), b.drop_first())
    }
}

proof fn lemma_lex_common_prefix(p: Seq<char>, x: Seq<char>, y: Seq<char>)
    ensures
        lex_less(p + x, p + y) == lex_less(x, y),
    decreases p.len(),
{
    if p.len() > 0 {
        assert((p + x).drop_first() =~= p.drop_first() + x);
        assert((p + y).drop_first() =~= p.drop_first() + y);
        lemma_lex_common_prefix(p.drop_first(), x, y);
    } else {
        assert(p + x =~= x);
        assert(p + y =~= y);
    }
}

proof fn lemma_lex_step(a: Seq<char>, b: Seq<char>)
    requires
        a.len() > 0,
        b.len() > 0,
    ensures
        (a[0] as u32) < (b[0] as u32) ==> lex_less(a, b),
        a[0] == b[0] ==> lex_less(a, b) == lex_less(a.drop_first(), b.drop_first()),
{
}

proof fn lemma_four_digits(n: nat)
    requires
        n < 10000,
    ensures
        n == 1000 * (n / 1000) + 100 * ((n / 100) % 10) + 10 * ((n / 10) % 10) + n % 10,
        n / 1000 < 10,
        (n / 1000) % 10 == n / 1000,
        digit_char(n / 100) == digit_char((n / 100) % 10),
        digit_char(n / 10) == digit_char((n / 10) % 10),
        digit_char(n) == digit_char(n % 10),
{
    assert(n == 10 * (n / 10) + n % 10);
    assert(n / 10 == 10 * (n / 100) + (n / 10) % 10);
    assert(n / 100 == 10 * (n / 1000) + (n / 100) % 10);
}

proof fn lemma_digit_lex(a3: nat, a2: nat, a1: nat, a0: nat, b3: nat, b2: nat, b1: nat, b0: nat)
    requires
        a3 < 10 && a2 < 10 && a1 < 10 && a0 < 10,
        b3 < 10 && b2 < 10 && b1 < 10 && b0 < 10,
        1000 * a3 + 100 * a2 + 10 * a1 + a0 < 1000 * b3 + 100 * b2 + 10 * b1 + b0,
    ensures
        a3 < b3 || (a3 == b3 && (a2 < b2 || (a2 == b2 && (a1 < b1 || (a1 == b1 && a0 < b0))))),
{
}

proof fn lemma_digit_order(d: nat, e: nat)
    requires
        d < e < 10,
    ensures
        (digit_char(d) as u32) < (digit_char(e) as u32),
{
}

proof fn lemma_padded4_digits(n: nat)
    requires
        n < 10000,
    ensures
        padded4(n) == seq![digit_char(n / 1000), digit_char(n / 100), digit_char(n / 10), digit_char(n)],
{
    lemma_decimal_len(n);
    let d = decimal(n);
    assert(digit_char(n) == digit_char(n % 10));
    assert(digit_char(n / 10) == digit_char((n / 10) % 10));
    assert(digit_char(n / 100) == digit_char((n / 100) % 10));
    assert((n / 10) / 10 == n / 100);
    assert((n / 100) / 10 == n / 1000);
    if n >= 10 {
        assert(d == decimal(n / 10).push(digit_char(n % 10)));
    }
    if n >= 100 {
        assert(decimal(n / 10) == decimal(n / 100).push(digit_char((n / 10) % 10)));
    }
    if n >= 1000 {
        assert(decimal(n / 100) == decimal(n / 1000).push(digit_char((n / 100) % 10)));
    }
    if n < 10 {
        assert(n / 10 == 0 && n / 100 == 0 && n / 1000 == 0);
        assert(padded4(n) =~= zeros(3) + d);
    } else if n < 100 {
        assert(n / 100 == 0 && n / 1000 == 0);
        assert(decimal(n / 10) == seq![digit_char(n / 10)]);
        assert(padded4(n) =~= zeros(2) + d);
    } else if n < 1000 {
        assert(n / 1000 == 0);
        assert(decimal(n / 100) == seq![digit_char(n / 100)]);
        assert(padded4(n) =~= zeros(1) + d);
    } else {
        assert(decimal(n / 1000) == seq![digit_char(n / 1000)]);
    }
    assert(padded4(n) =~= seq![digit_char(n / 1000), digit_char(n / 100), digit_char(n / 10), digit_char(n)]);
}

proof fn lemma_lex_asymmetric(a: Seq<char>, b: Seq<char>)
    ensures
        !(lex_less(a, b) && lex_less(b, a)),
    decreases a.len(),
{
    if a.len() > 0 && b.len() > 0 && a[0] == b[0] {
        lemma_lex_asymmetric(a.drop_first(), b.drop_first());
    }
}

/// Spooled file names sort in the order of their ordinals, for every ordinal
/// up to 9999: one name sorts before another exactly when its ordinal is
/// smaller.
pub proof fn lemma_slide_names_sort_by_ordinal(a: nat, b: nat)
    requires
        a <= 9999,
        b <= 9999,
    ensures
        lex_less(slide_file_name_spec(a), slide_file_name_spec(b)) <==> a < b,
{
    lemma_lex_asymmetric(slide_file_name_spec(a), slide_file_name_spec(b));
    if a < b {
        lemma_slide_name_before(a, b);
    } else if b < a {
        lemma_slide_name_before(b, a);
    }
}

proof fn lemma_slide_name_before(a: nat, b: nat)
    requires
        a < b <= 9999,
    ensures
        lex_less(slide_file_name_spec(a), slide_file_name_spec(b)),
{
    lemma_padded4_digits(a);
    lemma_padded4_digits(b);
    let ext = SLIDE_EXTENSION@;
    let da = seq![digit_char(a / 1000), digit_char(a / 100), digit_char(a / 10), digit_char(a)];
    let db = seq![digit_char(b / 1000), digit_char(b / 100), digit_char(b / 10), digit_char(b)];
    assert(slide_file_name_spec(a) =~= SLIDE_PREFIX@ + (da + ext));
    assert(slide_file_name_spec(b) =~= SLIDE_PREFIX@ + (db + ext));
    lemma_lex_common_prefix(SLIDE_PREFIX@, da + ext, db + ext);
    let xa = da + ext;
    let xb = db + ext;
    let ya = xa.drop_first();
    let yb = xb.drop_first();
    let za = ya.drop_first();
    let zb = yb.drop_first();
    let wa = za.drop_first();
    let wb = zb.drop_first();
    assert(xa[0] == digit_char(a / 1000) && xb[0] == digit_char(b / 1000));
    assert(ya[0] == digit_char(a / 100) && yb[0] == digit_char(b / 100));
    assert(za[0] == digit_char(a / 10) && zb[0] == digit_char(b / 10));
    assert(wa[0] == digit_char(a) && wb[0] == digit_char(b));
    lemma_lex_step(xa, xb);
    lemma_lex_step(ya, yb);
    lemma_lex_step(za, zb);
    lemma_lex_step(wa, wb);
    let a3 = a / 1000;
    let b3 = b / 1000;
    let a2 = (a / 100) % 10;
    let b2 = (b / 100) % 10;
    let a1 = (a / 10) % 10;
    let b1 = (b / 10) % 10;
    let a0 = a % 10;
    let b0 = b % 10;
    lemma_four_digits(a);
    lemma_four_digits(b);
    lemma_digit_lex(a3, a2, a1, a0, b3, b2, b1, b0);
    if a3 < b3 {
        lemma_digit_order(a3, b3);
    } else if a2 < b2 {
        lemma_digit_order(a2, b2);
    } else if a1 < b1 {
        lemma_digit_order(a1, b1);
    } else {
        lemma_digit_order(a0, b0);
    }
}

} // verus!
