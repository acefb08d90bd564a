//! Code 128 (Code Set B) encoder for job barcodes.
//!
//! Produces a symbol's *element widths* (bar/space run lengths in modules, starting with a bar) so
//! the writer can paint it as filled rectangles. Only Code Set B (printable ASCII 32-126) is
//! implemented; QR / DataMatrix are not.

use vstd::prelude::*;
use vstd::string::StrSliceExecFns;

verus! {

/// Code 128 symbol patterns, indexed by symbol value (0-106), each written as a decimal number
/// whose digits are the element widths (bar, space, bar, ...) in modules. Values 0-105 are
/// 11-module symbols of 6 elements; value 106 (Stop) is the 13-module terminator of 7 elements.
pub open spec fn pattern_codes() -> Seq<u32> {
    seq![
        212222, 222122, 222221, 121223, 121322, 131222, 122213, 122312, 132212,
        221213, 221312, 231212, 112232, 122132, 122231, 113222, 123122, 123221,
        223211, 221132, 221231, 213212, 223112, 312131, 311222, 321122, 321221,
        312212, 322112, 322211, 212123, 212321, 232121, 111323, 131123, 131321,
        112313, 132113, 132311, 211313, 231113, 231311, 112133, 112331, 132131,
        113123, 113321, 133121, 313121, 211331, 231131, 213113, 213311, 213131,
        311123, 311321, 331121, 312113, 312311, 332111, 314111, 221411, 431111,
        111224, 111422, 121124, 121421, 141122, 141221, 112214, 112412, 122114,
        122411, 142112, 142211, 241211, 221114, 413111, 241112, 134111, 111242,
        121142, 121241, 114212, 124112, 124211, 411212, 421112, 421211, 212141,
        214121, 412121, 111143, 111341, 131141, 114113, 114311, 411113, 411311,
        113141, 114131, 311141, 411131, 211412, 211214, 211232, 2331112,
    ]
}

/// Symbol value of the Code B start character.
pub const START_B: usize = 104;

/// Symbol value of the stop character.
pub const STOP: usize = 106;

/// The number of symbol patterns in the table.
pub const SYMBOL_COUNT: usize = 107;

/// The last `width` decimal digits of `c`, most significant first, as module widths.
pub open spec fn decimal_digits(c: nat, width: nat) -> Seq<u8>
    decreases width,
{
    if width == 0 {
        Seq::empty()
    } else {
        decimal_digits(c / 10, (width - 1) as nat).push((c % 10) as u8)
    }
}

/// Element count of the pattern for symbol value `v`.
pub open spec fn pattern_width(v: int) -> nat {
    if v == STOP as int { 7 } else { 6 }
}

/// Element widths of the pattern for symbol value `v`.
pub open spec fn pattern_elements(v: int) -> Seq<u8> {
    decimal_digits(pattern_codes()[v] as nat, pattern_width(v))
}

/// Code B symbol value of a printable-ASCII character.
pub open spec fn code_b_value(c: char) -> int {
    c as int - 32
}

/// A character Code B can encode (printable ASCII, 32-126).
pub open spec fn is_code_b(c: char) -> bool {
    32 <= c as int <= 126
}

/// `sum over 1-based positions i of i * values[i-1]`.
pub open spec fn weighted_sum(values: Seq<int>) -> int
    decreases values.len(),
{
    if values.len() == 0 {
        0
    } else {
        weighted_sum(values.drop_last()) + values.len() * values.last()
    }
}

/// Modulo-103 check value: start value (weight 1) plus each data value weighted by its 1-based
/// position.
pub open spec fn checksum(data: Seq<char>) -> int {
    (START_B as int + weighted_sum(data.map_values(|c: char| code_b_value(c)))) % 103
}

/// The full symbol-value sequence: Start B, data, check value, Stop.
pub open spec fn symbol_values(data: Seq<char>) -> Seq<int> {
    seq![START_B as int] + data.map_values(|c: char| code_b_value(c)) + seq![checksum(data), STOP as int]
}

/// Concatenated element widths of a sequence of symbol values.
pub open spec fn elements_of(values: Seq<int>) -> Seq<u8>
    decreases values.len(),
{
    if values.len() == 0 {
        Seq::empty()
    } else {
        elements_of(values.drop_last()) + pattern_elements(values.last())
    }
}

/// What Code 128-B encoding of `data` yields: `None` for empty data or any character outside
/// printable ASCII, else the element widths of Start B, data, check value and Stop.
pub open spec fn code128b_spec(data: Seq<char>) -> Option<Seq<u8>> {
    if data.len() == 0 || exists|i: int| 0 <= i < data.len() && !is_code_b(#[trigger] data[i]) {
        None
    } else {
        Some(elements_of(symbol_values(data)))
    }
}

/// The pattern number of symbol value `v` (its digits are the element widths).
fn pattern_code(v: usize) -> (c: u32)
    requires
        v < SYMBOL_COUNT,
    ensures
        c == pattern_codes()[v as int],
{
    let table: [u32; 107] = [
        212222u32, 222122, 222221, 121223, 121322, 131222, 122213, 122312, 132212,
        221213, 221312, 231212, 112232, 122132, 122231, 113222, 123122, 123221,
        223211, 221132, 221231, 213212, 223112, 312131, 311222, 321122, 321221,
        312212, 322112, 322211, 212123, 212321, 232121, 111323, 131123, 131321,
        112313, 132113, 132311, 211313, 231113, 231311, 112133, 112331, 132131,
        113123, 113321, 133121, 313121, 211331, 231131, 213113, 213311, 213131,
        311123, 311321, 331121, 312113, 312311, 332111, 314111, 221411, 431111,
        111224, 111422, 121124, 121421, 141122, 141221, 112214, 112412, 122114,
        122411, 142112, 142211, 241211, 221114, 413111, 241112, 134111, 111242,
        121142, 121241, 114212, 124112, 124211, 411212, 421112, 421211, 212141,
        214121, 412121, 111143, 111341, 131141, 114113, 114311, 411113, 411311,
        113141, 114131, 311141, 411131, 211412, 211214, 211232, 2331112,
    ];
    assert(table@ =~= pattern_codes());
    table[v]
}

} // verus!

verus! {

/// Appends the last `width` decimal digits of `c`, most significant first.
fn push_digits(out: &mut Vec<u8>, c: u32, width: usize)
    ensures
        final(out)@ == old(out)@ + decimal_digits(c as nat, width as nat),
    decreases width,
{
    if width > 0 {
        push_digits(out, c / 10, width - 1);
        out.push((c % 10) as u8);
    }
}

/// Element widths (bar, space, bar, ...) of the Code 128 symbol with value `value` (0-106).
pub fn code128_pattern(value: usize) -> (elements: Vec<u8>)
    requires
        value < SYMBOL_COUNT,
    ensures
        elements@ == pattern_elements(value as int),
{
    let mut elements: Vec<u8> = Vec::new();
    let width: usize = if value == STOP { 7 } else { 6 };
    push_digits(&mut elements, pattern_code(value), width);
    elements
}

/// Encode `data` as Code 128 Set B, returning the symbol's element widths in modules, alternating
/// bar, space, bar, ... starting with a bar. Returns `None` if any character is outside Code-B
/// range (ASCII 32-126) or if `data` is empty.
pub fn code128b_elements(data: &str) -> (out: Option<Vec<u8>>)
    ensures
        match out {
            None => code128b_spec(data@) is None,
            Some(v) => code128b_spec(data@) == Some(v@),
        },
{
    let n = data.unicode_len();
    if n == 0 {
        return None;
    }
    let mut values: Vec<usize> = Vec::new();
    values.push(START_B);
    let mut i: usize = 0;
    while i < n
        invariant
            n == data@.len(),
            i <= n,
            values.len() == i + 1,
            values@[0] == START_B,
            forall|k: int| 0 <= k < i ==> is_code_b(#[trigger] data@[k]),
            forall|k: int| 0 <= k < i ==> values@[k + 1] == code_b_value(#[trigger] data@[k]),
        decreases n - i,
    {
        let ch = data.get_char(i);
        let c = ch as u32;
        if c < 32 || c > 126 {
            assert(!is_code_b(data@[i as int]));
            return None;
        }
        values.push((c - 32) as usize);
        i = i + 1;
    }
    let ghost vals = data@.map_values(|c: char| code_b_value(c));
    assert forall|k: int| 0 <= k < n implies 0 <= #[trigger] values@[k + 1] <= 94 by {
        assert(is_code_b(data@[k]));
        assert(values@[k + 1] == code_b_value(data@[k]));
    }
    // Modulo-103 checksum, reduced as it accumulates: start value (weight 1) plus each data value
    // weighted by its 1-based position.
    let mut sum: usize = START_B % 103;
    let mut j: usize = 1;
    while j < values.len()
        invariant
            values.len() == n + 1,
            n == data@.len(),
            vals == data@.map_values(|c: char| code_b_value(c)),
            forall|k: int| 0 <= k < n ==> values@[k + 1] == code_b_value(#[trigger] data@[k]),
            forall|k: int| 0 <= k < n ==> 0 <= #[trigger] values@[k + 1] <= 94,
            1 <= j <= n + 1,
            sum == (START_B as int + weighted_sum(vals.take(j - 1))) % 103,
        decreases values.len() - j,
    {
        let v = values[j];
        proof {
            let prev = vals.take(j - 1);
            let next = vals.take(j as int);
            assert(next.drop_last() =~= prev);
            assert(next.last() == v);
            assert(weighted_sum(next) == weighted_sum(prev) + j * v);
            let a = START_B as int + weighted_sum(prev);
            vstd::arithmetic::div_mod::lemma_mul_mod_noop_general(j as int, v as int, 103);
            vstd::arithmetic::div_mod::lemma_add_mod_noop(a, j * v, 103);
            vstd::arithmetic::div_mod::lemma_add_mod_noop((j as int % 103) * v, 0, 103);
            assert((sum + ((j as int % 103) * v) % 103) % 103 == (a + j * v) % 103) by {
                vstd::arithmetic::div_mod::lemma_mod_twice(a, 103);
                vstd::arithmetic::div_mod::lemma_add_mod_noop(a % 103, (j as int % 103) * v, 103);
            }
            assert((j as int % 103) * v <= 102 * 94) by (nonlinear_arith)
                requires 0 <= j as int % 103 <= 102, 0 <= v <= 94;
        }
        sum = (sum + (j % 103) * v) % 103;
        j = j + 1;
    }
    proof {
        assert(vals.take(n as int) =~= vals);
    }
    values.push(sum);
    values.push(STOP);
    assert forall|t: int| 0 <= t < values.len() implies 0 <= #[trigger] values@[t] < SYMBOL_COUNT by {
        if 1 <= t <= n {
            assert(0 <= values@[(t - 1) + 1] <= 94);
        }
    }
    let ghost syms = symbol_values(data@);
    assert(values@.map_values(|x: usize| x as int) =~= syms);

    let mut elements: Vec<u8> = Vec::new();
    let mut k: usize = 0;
    while k < values.len()
        invariant
            values@.map_values(|x: usize| x as int) == syms,
            syms == symbol_values(data@),
            forall|t: int| 0 <= t < values.len() ==> 0 <= #[trigger] values@[t] < SYMBOL_COUNT,
            k <= values.len(),
            elements@ == elements_of(syms.take(k as int)),
        decreases values.len() - k,
    {
        let v = values[k];
        let pat = code128_pattern(v);
        let mut e: usize = 0;
        let ghost before = elements@;
        while e < pat.len()
            invariant
                e <= pat.len(),
                elements@ == before + pat@.take(e as int),
            decreases pat.len() - e,
        {
            elements.push(pat[e]);
            e = e + 1;
            proof {
                assert(pat@.take(e as int) =~= pat@.take(e - 1) .push(pat@[e - 1]));
            }
        }
        proof {
            assert(pat@.take(pat.len() as int) =~= pat@);
            let next = syms.take(k + 1);
            assert(next.drop_last() =~= syms.take(k as int));
            assert(next.last() == v as int);
        }
        k = k + 1;
    }
    proof {
        assert(syms.take(values.len() as int) =~= syms);
        assert(!(exists|i: int| 0 <= i < data@.len() && !is_code_b(#[trigger] data@[i])));
    }
    Some(elements)
}

} // verus!

verus! {

proof fn decimal_digits_len(c: nat, width: nat)
    ensures
        decimal_digits(c, width).len() == width,
    decreases width,
{
    if width > 0 {
        decimal_digits_len(c / 10, (width - 1) as nat);
    }
}

proof fn elements_of_len(values: Seq<int>)
    requires
        forall|i: int| 0 <= i < values.len() ==> #[trigger] values[i] != STOP as int,
    ensures
        elements_of(values).len() == 6 * values.len(),
    decreases values.len(),
{
    if values.len() > 0 {
        elements_of_len(values.drop_last());
        decimal_digits_len(pattern_codes()[values.last()] as nat, 6);
    }
}

/// A Code 128-B symbol for `n` valid characters has `6 * (n + 2) + 7` elements (Start B, the data,
/// the check value at six elements each, and the seven-element Stop): an odd count, so it starts
/// and ends on a bar.
pub proof fn code128b_element_count(data: Seq<char>)
    requires
        code128b_spec(data) is Some,
    ensures
        code128b_spec(data)->0.len() == 6 * (data.len() + 2) + 7,
        code128b_spec(data)->0.len() % 2 == 1,
{
    let values = symbol_values(data);
    let front = values.drop_last();
    assert forall|i: int| 0 <= i < front.len() implies #[trigger] front[i] != STOP as int by {
        if 1 <= i <= data.len() {
            assert(is_code_b(data[i - 1]));
        }
    }
    elements_of_len(front);
    decimal_digits_len(pattern_codes()[STOP as int] as nat, 7);
    assert(values.len() == data.len() + 3);
}


/// Total width in modules of a run of elements.
pub open spec fn module_count(s: Seq<u8>) -> int
    decreases s.len(),
{
    if s.len() == 0 {
        0
    } else {
        module_count(s.drop_last()) + s.last()
    }
}

proof fn module_count_concat(a: Seq<u8>, b: Seq<u8>)
    ensures
        module_count(a + b) == module_count(a) + module_count(b),
    decreases b.len(),
{
    if b.len() > 0 {
        module_count_concat(a, b.drop_last());
        assert((a + b).drop_last() =~= a + b.drop_last());
    } else {
        assert(a + b =~= a);
    }
}

/// Sum of the last `width` decimal digits of `c`.
pub open spec fn digit_sum(c: nat, width: nat) -> int
    decreases width,
{
    if width == 0 {
        0
    } else {
        digit_sum(c / 10, (width - 1) as nat) + c % 10
    }
}

proof fn digits_modules(c: nat, width: nat)
    ensures
        module_count(decimal_digits(c, width)) == digit_sum(c, width),
    decreases width,
{
    if width > 0 {
        digits_modules(c / 10, (width - 1) as nat);
        assert(decimal_digits(c, width).drop_last() =~= decimal_digits(c / 10, (width - 1) as nat));
    }
}

/// The patterns of the first `k` symbol values each span 11 modules.
spec fn charges_below(k: nat) -> bool
    decreases k,
{
    if k == 0 {
        true
    } else {
        charges_below((k - 1) as nat) && digit_sum(pattern_codes()[k - 1] as nat, 6) == 11
    }
}

proof fn charges_below_holds(k: nat, v: int)
    requires
        charges_below(k),
        0 <= v < k,
    ensures
        digit_sum(pattern_codes()[v] as nat, 6) == 11,
    decreases k,
{
    if v < k - 1 {
        charges_below_holds((k - 1) as nat, v);
    }
}

/// Every data, start and check symbol pattern spans 11 modules; Stop spans 13.
#[verifier::rlimit(100)]
#[verifier::spinoff_prover]
pub proof fn pattern_module_charges()
    ensures
        forall|v: int| 0 <= v < STOP as int ==> module_count(#[trigger] pattern_elements(v)) == 11,
        module_count(pattern_elements(STOP as int)) == 13,
{
    assert(charges_below(10)) by {
        reveal_with_fuel(charges_below, 11);
        reveal_with_fuel(digit_sum, 7);
    }
    assert(charges_below(20)) by {
        reveal_with_fuel(charges_below, 11);
        reveal_with_fuel(digit_sum, 7);
    }
    assert(charges_below(30)) by {
        reveal_with_fuel(charges_below, 11);
        reveal_with_fuel(digit_sum, 7);
    }
    assert(charges_below(40)) by {
        reveal_with_fuel(charges_below, 11);
        reveal_with_fuel(digit_sum, 7);
    }
    assert(charges_below(50)) by {
        reveal_with_fuel(charges_below, 11);
        reveal_with_fuel(digit_sum, 7);
    }
    assert(charges_below(60)) by {
        reveal_with_fuel(charges_below, 11);
        reveal_with_fuel(digit_sum, 7);
    }
    assert(charges_below(70)) by {
        reveal_with_fuel(charges_below, 11);
        reveal_with_fuel(digit_sum, 7);
    }
    assert(charges_below(80)) by {
        reveal_with_fuel(charges_below, 11);
        reveal_with_fuel(digit_sum, 7);
    }
    assert(charges_below(90)) by {
        reveal_with_fuel(charges_below, 11);
        reveal_with_fuel(digit_sum, 7);
    }
    assert(charges_below(100)) by {
        reveal_with_fuel(charges_below, 11);
        reveal_with_fuel(digit_sum, 7);
    }
    assert(charges_below(106)) by {
        reveal_with_fuel(charges_below, 11);
        reveal_with_fuel(digit_sum, 7);
    }
    assert forall|v: int| 0 <= v < STOP as int implies module_count(#[trigger] pattern_elements(v)) == 11 by {
        charges_below_holds(106, v);
        digits_modules(pattern_codes()[v] as nat, 6);
    }
    digits_modules(pattern_codes()[STOP as int] as nat, 7);
    assert(digit_sum(2331112, 7) == 13) by {
        reveal_with_fuel(digit_sum, 8);
    }
}

proof fn elements_of_modules(values: Seq<int>)
    requires
        forall|i: int| 0 <= i < values.len() ==> 0 <= #[trigger] values[i] < STOP as int,
    ensures
        module_count(elements_of(values)) == 11 * values.len(),
    decreases values.len(),
{
    if values.len() > 0 {
        elements_of_modules(values.drop_last());
        pattern_module_charges();
        module_count_concat(elements_of(values.drop_last()), pattern_elements(values.last()));
    }
}

/// A Code 128-B symbol for `n` valid characters spans `11 * (n + 2) + 13` modules: Start B, the
/// data and the check value at 11 modules each, and the 13-module Stop.
pub proof fn code128b_module_count(data: Seq<char>)
    requires
        code128b_spec(data) is Some,
    ensures
        module_count(code128b_spec(data)->0) == 11 * (data.len() + 2) + 13,
{
    let values = symbol_values(data);
    let front = values.drop_last();
    assert forall|i: int| 0 <= i < front.len() implies 0 <= #[trigger] front[i] < STOP as int by {
        if 1 <= i <= data.len() {
            assert(is_code_b(data[i - 1]));
        }
    }
    elements_of_modules(front);
    pattern_module_charges();
    module_count_concat(elements_of(front), pattern_elements(STOP as int));
    assert(values.len() == data.len() + 3);
}


/// The Code 128 symbol table as ISO/IEC 15417 prints it: the modules of each symbol value left to
/// right as binary digits, 1 for a bar module and 0 for a space module (11 modules per symbol, 13
/// for Stop); value 106 (Stop) for any value past the table.
pub open spec fn iso_module_bits(v: int) -> int {
    if v == 0 { 0b11011001100 } else if v == 1 { 0b11001101100 } else
    if v == 2 { 0b11001100110 } else if v == 3 { 0b10010011000 } else
    if v == 4 { 0b10010001100 } else if v == 5 { 0b10001001100 } else
    if v == 6 { 0b10011001000 } else if v == 7 { 0b10011000100 } else
    if v == 8 { 0b10001100100 } else if v == 9 { 0b11001001000 } else
    if v == 10 { 0b11001000100 } else if v == 11 { 0b11000100100 } else
    if v == 12 { 0b10110011100 } else if v == 13 { 0b10011011100 } else
    if v == 14 { 0b10011001110 } else if v == 15 { 0b10111001100 } else
    if v == 16 { 0b10011101100 } else if v == 17 { 0b10011100110 } else
    if v == 18 { 0b11001110010 } else if v == 19 { 0b11001011100 } else
    if v == 20 { 0b11001001110 } else if v == 21 { 0b11011100100 } else
    if v == 22 { 0b11001110100 } else if v == 23 { 0b11101101110 } else
    if v == 24 { 0b11101001100 } else if v == 25 { 0b11100101100 } else
    if v == 26 { 0b11100100110 } else if v == 27 { 0b11101100100 } else
    if v == 28 { 0b11100110100 } else if v == 29 { 0b11100110010 } else
    if v == 30 { 0b11011011000 } else if v == 31 { 0b11011000110 } else
    if v == 32 { 0b11000110110 } else if v == 33 { 0b10100011000 } else
    if v == 34 { 0b10001011000 } else if v == 35 { 0b10001000110 } else
    if v == 36 { 0b10110001000 } else if v == 37 { 0b10001101000 } else
    if v == 38 { 0b10001100010 } else if v == 39 { 0b11010001000 } else
    if v == 40 { 0b11000101000 } else if v == 41 { 0b11000100010 } else
    if v == 42 { 0b10110111000 } else if v == 43 { 0b10110001110 } else
    if v == 44 { 0b10001101110 } else if v == 45 { 0b10111011000 } else
    if v == 46 { 0b10111000110 } else if v == 47 { 0b10001110110 } else
    if v == 48 { 0b11101110110 } else if v == 49 { 0b11010001110 } else
    if v == 50 { 0b11000101110 } else if v == 51 { 0b11011101000 } else
    if v == 52 { 0b11011100010 } else if v == 53 { 0b11011101110 } else
    if v == 54 { 0b11101011000 } else if v == 55 { 0b11101000110 } else
    if v == 56 { 0b11100010110 } else if v == 57 { 0b11101101000 } else
    if v == 58 { 0b11101100010 } else if v == 59 { 0b11100011010 } else
    if v == 60 { 0b11101111010 } else if v == 61 { 0b11001000010 } else
    if v == 62 { 0b11110001010 } else if v == 63 { 0b10100110000 } else
    if v == 64 { 0b10100001100 } else if v == 65 { 0b10010110000 } else
    if v == 66 { 0b10010000110 } else if v == 67 { 0b10000101100 } else
    if v == 68 { 0b10000100110 } else if v == 69 { 0b10110010000 } else
    if v == 70 { 0b10110000100 } else if v == 71 { 0b10011010000 } else
    if v == 72 { 0b10011000010 } else if v == 73 { 0b10000110100 } else
    if v == 74 { 0b10000110010 } else if v == 75 { 0b11000010010 } else
    if v == 76 { 0b11001010000 } else if v == 77 { 0b11110111010 } else
    if v == 78 { 0b11000010100 } else if v == 79 { 0b10001111010 } else
    if v == 80 { 0b10100111100 } else if v == 81 { 0b10010111100 } else
    if v == 82 { 0b10010011110 } else if v == 83 { 0b10111100100 } else
    if v == 84 { 0b10011110100 } else if v == 85 { 0b10011110010 } else
    if v == 86 { 0b11110100100 } else if v == 87 { 0b11110010100 } else
    if v == 88 { 0b11110010010 } else if v == 89 { 0b11011011110 } else
    if v == 90 { 0b11011110110 } else if v == 91 { 0b11110110110 } else
    if v == 92 { 0b10101111000 } else if v == 93 { 0b10100011110 } else
    if v == 94 { 0b10001011110 } else if v == 95 { 0b10111101000 } else
    if v == 96 { 0b10111100010 } else if v == 97 { 0b11110101000 } else
    if v == 98 { 0b11110100010 } else if v == 99 { 0b10111011110 } else
    if v == 100 { 0b10111101110 } else if v == 101 { 0b11101011110 } else
    if v == 102 { 0b11110101110 } else if v == 103 { 0b11010000100 } else
    if v == 104 { 0b11010010000 } else if v == 105 { 0b11010011100 } else { 0b1100011101011 }
}

/// `2` to the power `w`.
pub open spec fn two_to(w: nat) -> int
    decreases w,
{
    if w == 0 {
        1
    } else {
        2 * two_to((w - 1) as nat)
    }
}

/// The module bitmap of a run of element widths, alternating bar, space, bar, ... from a bar:
/// each element contributes as many binary digits as its width, 1s for a bar and 0s for a space,
/// read left to right.
pub open spec fn element_bits(e: Seq<u8>) -> int
    decreases e.len(),
{
    if e.len() == 0 {
        0
    } else {
        let w = two_to(e.last() as nat);
        element_bits(e.drop_last()) * w + if (e.len() - 1) % 2 == 0 { w - 1 } else { 0 }
    }
}

spec fn digit_weight(d: int) -> int {
    if d == 0 { 1 } else if d == 1 { 2 } else if d == 2 { 4 } else if d == 3 { 8 } else if d == 4 { 16 }
    else if d == 5 { 32 } else if d == 6 { 64 } else if d == 7 { 128 } else if d == 8 { 256 } else { 512 }
}

/// `x` shifted left by `d` binary digits, for a decimal digit `d`.
spec fn shifted(x: int, d: int) -> int {
    if d == 0 { x } else if d == 1 { 2 * x } else if d == 2 { 4 * x } else if d == 3 { 8 * x } else if d == 4 { 16 * x }
    else if d == 5 { 32 * x } else if d == 6 { 64 * x } else if d == 7 { 128 * x } else if d == 8 { 256 * x } else { 512 * x }
}

/// The module bitmap of the last `width` decimal digits of `c` read as element widths.
spec fn digit_bits(c: nat, width: nat) -> int
    decreases width,
{
    if width == 0 {
        0
    } else {
        let d = c as int % 10;
        shifted(digit_bits(c / 10, (width - 1) as nat), d) + if (width - 1) % 2 == 0 { digit_weight(d) - 1 } else { 0 }
    }
}

proof fn digit_weight_is_power(d: int, x: int)
    requires
        0 <= d < 10,
    ensures
        two_to(d as nat) == digit_weight(d),
        shifted(x, d) == x * two_to(d as nat),
{
    reveal_with_fuel(two_to, 11);
    let t = two_to(d as nat);
    assert(t == digit_weight(d));
    assert(shifted(x, d) == digit_weight(d) * x);
    assert(digit_weight(d) * x == x * t) by (nonlinear_arith)
        requires t == digit_weight(d);
}

proof fn digits_bits(c: nat, width: nat)
    ensures
        element_bits(decimal_digits(c, width)) == digit_bits(c, width),
    decreases width,
{
    if width > 0 {
        digits_bits(c / 10, (width - 1) as nat);
        decimal_digits_len(c / 10, (width - 1) as nat);
        let e = decimal_digits(c, width);
        assert(e.drop_last() =~= decimal_digits(c / 10, (width - 1) as nat));
        digit_weight_is_power((c % 10) as int, digit_bits(c / 10, (width - 1) as nat));
    }
}

/// The standard's modules for value `v`, read from the pattern table's element widths.
spec fn code_bits(v: int) -> int {
    digit_bits(pattern_codes()[v] as nat, pattern_width(v))
}

#[verifier::rlimit(100)]
#[verifier::spinoff_prover]
proof fn iso_rows_0_10()
    ensures
        forall|v: int| 0 <= v < 10 ==> #[trigger] code_bits(v) == iso_module_bits(v),
{
    assert(code_bits(0) == iso_module_bits(0)) by {
        assert(pattern_codes()[0] == 212222);
        assert(digit_bits(212222, 6) == 0b11011001100) by {
            reveal_with_fuel(digit_bits, 8);
        }
    }
    assert(code_bits(1) == iso_module_bits(1)) by {
        assert(pattern_codes()[1] == 222122);
        assert(digit_bits(222122, 6) == 0b11001101100) by {
            reveal_with_fuel(digit_bits, 8);
        }
    }
    assert(code_bits(2) == iso_module_bits(2)) by {
        assert(pattern_codes()[2] == 222221);
        assert(digit_bits(222221, 6) == 0b11001100110) by {
            reveal_with_fuel(digit_bits, 8);
        }
    }
    assert(code_bits(3) == iso_module_bits(3)) by {
        assert(pattern_codes()[3] == 121223);
        assert(digit_bits(121223, 6) == 0b10010011000) by {
            reveal_with_fuel(digit_bits, 8);
        }
    }
    assert(code_bits(4) == iso_module_bits(4)) by {
        assert(pattern_codes()[4] == 121322);
        assert(digit_bits(121322, 6) == 0b10010001100) by {
            reveal_with_fuel(digit_bits, 8);
        }
    }
    assert(code_bits(5) == iso_module_bits(5)) by {
        assert(pattern_codes()[5] == 131222);
        assert(digit_bits(131222, 6) == 0b10001001100) by {
            reveal_with_fuel(digit_bits, 8);
        }
    }
    assert(code_bits(6) == iso_module_bits(6)) by {
        assert(pattern_codes()[6] == 122213);
        assert(digit_bits(122213, 6) == 0b10011001000) by {
            reveal_with_fuel(digit_bits, 8);
        }
    }
    assert(code_bits(7) == iso_module_bits(7)) by {
        assert(pattern_codes()[7] == 122312);
        assert(digit_bits(122312, 6) == 0b10011000100) by {
            reveal_with_fuel(digit_bits, 8);
        }
    }
    assert(code_bits(8) == iso_module_bits(8)) by {
        assert(pattern_codes()[8] == 132212);
        assert(digit_bits(132212, 6) == 0b10001100100) by {
            reveal_with_fuel(digit_bits, 8);
        }
    }
    assert(code_bits(9) == iso_module_bits(9)) by {
        assert(pattern_codes()[9] == 221213);
        assert(digit_bits(221213, 6) == 0b11001001000) by {
            reveal_with_fuel(digit_bits, 8);
        }
    }
}

#[verifier::rlimit(100)]
#[verifier::spinoff_prover]
proof fn iso_rows_10_20()
    ensures
        forall|v: int| 10 <= v < 20 ==> #[trigger] code_bits(v) == iso_module_bits(v),
{
    assert(code_bits(10) == iso_module_bits(10)) by {
        assert(pattern_codes()[10] == 221312);
        assert(digit_bits(221312, 6) == 0b11001000100) by {
            reveal_with_fuel(digit_bits, 8);
        }
    }
    assert(code_bits(11) == iso_module_bits(11)) by {
        assert(pattern_codes()[11] == 231212);
        assert(digit_bits(231212, 6) == 0b11000100100) by {
            reveal_with_fuel(digit_bits, 8);
        }
    }
    assert(code_bits(12) == iso_module_bits(12)) by {
        assert(pattern_codes()[12] == 112232);
        assert(digit_bits(112232, 6) == 0b10110011100) by {
            reveal_with_fuel(digit_bits, 8);
        }
    }
    assert(code_bits(13) == iso_module_bits(13)) by {
        assert(pattern_codes()[13] == 122132);
        assert(digit_bits(122132, 6) == 0b10011011100) by {
            reveal_with_fuel(digit_bits, 8);
        }
    }
    assert(code_bits(14) == iso_module_bits(14)) by {
        assert(pattern_codes()[14] == 122231);
        assert(digit_bits(122231, 6) == 0b10011001110) by {
            reveal_with_fuel(digit_bits, 8);
        }
    }
    assert(code_bits(15) == iso_module_bits(15)) by {
        assert(pattern_codes()[15] == 113222);
        assert(digit_bits(113222, 6) == 0b10111001100) by {
            reveal_with_fuel(digit_bits, 8);
        }
    }
    assert(code_bits(16) == iso_module_bits(16)) by {
        assert(pattern_codes()[16] == 123122);
        assert(digit_bits(123122, 6) == 0b10011101100) by {
            reveal_with_fuel(digit_bits, 8);
        }
    }
    assert(code_bits(17) == iso_module_bits(17)) by {
        assert(pattern_codes()[17] == 123221);
        assert(digit_bits(123221, 6) == 0b10011100110) by {
            reveal_with_fuel(digit_bits, 8);
        }
    }
    assert(code_bits(18) == iso_module_bits(18)) by {
        assert(pattern_codes()[18] == 223211);
        assert(digit_bits(223211, 6) == 0b11001110010) by {
            reveal_with_fuel(digit_bits, 8);
        }
    }
    assert(code_bits(19) == iso_module_bits(19)) by {
        assert(pattern_codes()[19] == 221132);
        assert(digit_bits(221132, 6) == 0b11001011100) by {
            reveal_with_fuel(digit_bits, 8);
        }
    }
}

#[verifier::rlimit(100)]
#[verifier::spinoff_prover]
proof fn iso_rows_20_30()
    ensures
        forall|v: int| 20 <= v < 30 ==> #[trigger] code_bits(v) == iso_module_bits(v),
{
    assert(code_bits(20) == iso_module_bits(20)) by {
        assert(pattern_codes()[20] == 221231);
        assert(digit_bits(221231, 6) == 0b11001001110) by {
            reveal_with_fuel(digit_bits, 8);
        }
    }
    assert(code_bits(21) == iso_module_bits(21)) by {
        assert(pattern_codes()[21] == 213212);
        assert(digit_bits(213212, 6) == 0b11011100100) by {
            reveal_with_fuel(digit_bits, 8);
        }
    }
    assert(code_bits(22) == iso_module_bits(22)) by {
        assert(pattern_codes()[22] == 223112);
        assert(digit_bits(223112, 6) == 0b11001110100) by {
            reveal_with_fuel(digit_bits, 8);
        }
    }
    assert(code_bits(23) == iso_module_bits(23)) by {
        assert(pattern_codes()[23] == 312131);
        assert(digit_bits(312131, 6) == 0b11101101110) by {
            reveal_with_fuel(digit_bits, 8);
        }
    }
    assert(code_bits(24) == iso_module_bits(24)) by {
        assert(pattern_codes()[24] == 311222);
        assert(digit_bits(311222, 6) == 0b11101001100) by {
            reveal_with_fuel(digit_bits, 8);
        }
    }
    assert(code_bits(25) == iso_module_bits(25)) by {
        assert(pattern_codes()[25] == 321122);
        assert(digit_bits(321122, 6) == 0b11100101100) by {
            reveal_with_fuel(digit_bits, 8);
        }
    }
    assert(code_bits(26) == iso_module_bits(26)) by {
        assert(pattern_codes()[26] == 321221);
        assert(digit_bits(321221, 6) == 0b11100100110) by {
            reveal_with_fuel(digit_bits, 8);
        }
    }
    assert(code_bits(27) == iso_module_bits(27)) by {
        assert(pattern_codes()[27] == 312212);
        assert(digit_bits(312212, 6) == 0b11101100100) by {
            reveal_with_fuel(digit_bits, 8);
        }
    }
    assert(code_bits(28) == iso_module_bits(28)) by {
        assert(pattern_codes()[28] == 322112);
        assert(digit_bits(322112, 6) == 0b11100110100) by {
            reveal_with_fuel(digit_bits, 8);
        }
    }
    assert(code_bits(29) == iso_module_bits(29)) by {
        assert(pattern_codes()[29] == 322211);
        assert(digit_bits(322211, 6) == 0b11100110010) by {
            reveal_with_fuel(digit_bits, 8);
        }
    }
}

#[verifier::rlimit(100)]
#[verifier::spinoff_prover]
proof fn iso_rows_30_40()
    ensures
        forall|v: int| 30 <= v < 40 ==> #[trigger] code_bits(v) == iso_module_bits(v),
{
    assert(code_bits(30) == iso_module_bits(30)) by {
        assert(pattern_codes()[30] == 212123);
        assert(digit_bits(212123, 6) == 0b11011011000) by {
            reveal_with_fuel(digit_bits, 8);
        }
    }
    assert(code_bits(31) == iso_module_bits(31)) by {
        assert(pattern_codes()[31] == 212321);
        assert(digit_bits(212321, 6) == 0b11011000110) by {
            reveal_with_fuel(digit_bits, 8);
        }
    }
    assert(code_bits(32) == iso_module_bits(32)) by {
        assert(pattern_codes()[32] == 232121);
        assert(digit_bits(232121, 6) == 0b11000110110) by {
            reveal_with_fuel(digit_bits, 8);
        }
    }
    assert(code_bits(33) == iso_module_bits(33)) by {
        assert(pattern_codes()[33] == 111323);
        assert(digit_bits(111323, 6) == 0b10100011000) by {
            reveal_with_fuel(digit_bits, 8);
        }
    }
    assert(code_bits(34) == iso_module_bits(34)) by {
        assert(pattern_codes()[34] == 131123);
        assert(digit_bits(131123, 6) == 0b10001011000) by {
            reveal_with_fuel(digit_bits, 8);
        }
    }
    assert(code_bits(35) == iso_module_bits(35)) by {
        assert(pattern_codes()[35] == 131321);
        assert(digit_bits(131321, 6) == 0b10001000110) by {
            reveal_with_fuel(digit_bits, 8);
        }
    }
    assert(code_bits(36) == iso_module_bits(36)) by {
        assert(pattern_codes()[36] == 112313);
        assert(digit_bits(112313, 6) == 0b10110001000) by {
            reveal_with_fuel(digit_bits, 8);
        }
    }
    assert(code_bits(37) == iso_module_bits(37)) by {
        assert(pattern_codes()[37] == 132113);
        assert(digit_bits(132113, 6) == 0b10001101000) by {
            reveal_with_fuel(digit_bits, 8);
        }
    }
    assert(code_bits(38) == iso_module_bits(38)) by {
        assert(pattern_codes()[38] == 132311);
        assert(digit_bits(132311, 6) == 0b10001100010) by {
            reveal_with_fuel(digit_bits, 8);
        }
    }
    assert(code_bits(39) == iso_module_bits(39)) by {
        assert(pattern_codes()[39] == 211313);
        assert(digit_bits(211313, 6) == 0b11010001000) by {
            reveal_with_fuel(digit_bits, 8);
        }
    }
}

#[verifier::rlimit(100)]
#[verifier::spinoff_prover]
proof fn iso_rows_40_50()
    ensures
        forall|v: int| 40 <= v < 50 ==> #[trigger] code_bits(v) == iso_module_bits(v),
{
    assert(code_bits(40) == iso_module_bits(40)) by {
        assert(pattern_codes()[40] == 231113);
        assert(digit_bits(231113, 6) == 0b11000101000) by {
            reveal_with_fuel(digit_bits, 8);
        }
    }
    assert(code_bits(41) == iso_module_bits(41)) by {
        assert(pattern_codes()[41] == 231311);
        assert(digit_bits(231311, 6) == 0b11000100010) by {
            reveal_with_fuel(digit_bits, 8);
        }
    }
    assert(code_bits(42) == iso_module_bits(42)) by {
        assert(pattern_codes()[42] == 112133);
        assert(digit_bits(112133, 6) == 0b10110111000) by {
            reveal_with_fuel(digit_bits, 8);
        }
    }
    assert(code_bits(43) == iso_module_bits(43)) by {
        assert(pattern_codes()[43] == 112331);
        assert(digit_bits(112331, 6) == 0b10110001110) by {
            reveal_with_fuel(digit_bits, 8);
        }
    }
    assert(code_bits(44) == iso_module_bits(44)) by {
        assert(pattern_codes()[44] == 132131);
        assert(digit_bits(132131, 6) == 0b10001101110) by {
            reveal_with_fuel(digit_bits, 8);
        }
    }
    assert(code_bits(45) == iso_module_bits(45)) by {
        assert(pattern_codes()[45] == 113123);
        assert(digit_bits(113123, 6) == 0b10111011000) by {
            reveal_with_fuel(digit_bits, 8);
        }
    }
    assert(code_bits(46) == iso_module_bits(46)) by {
        assert(pattern_codes()[46] == 113321);
        assert(digit_bits(113321, 6) == 0b10111000110) by {
            reveal_with_fuel(digit_bits, 8);
        }
    }
    assert(code_bits(47) == iso_module_bits(47)) by {
        assert(pattern_codes()[47] == 133121);
        assert(digit_bits(133121, 6) == 0b10001110110) by {
            reveal_with_fuel(digit_bits, 8);
        }
    }
    assert(code_bits(48) == iso_module_bits(48)) by {
        assert(pattern_codes()[48] == 313121);
        assert(digit_bits(313121, 6) == 0b11101110110) by {
            reveal_with_fuel(digit_bits, 8);
        }
    }
    assert(code_bits(49) == iso_module_bits(49)) by {
        assert(pattern_codes()[49] == 211331);
        assert(digit_bits(211331, 6) == 0b11010001110) by {
            reveal_with_fuel(digit_bits, 8);
        }
    }
}

#[verifier::rlimit(100)]
#[verifier::spinoff_prover]
proof fn iso_rows_50_60()
    ensures
        forall|v: int| 50 <= v < 60 ==> #[trigger] code_bits(v) == iso_module_bits(v),
{
    assert(code_bits(50) == iso_module_bits(50)) by {
        assert(pattern_codes()[50] == 231131);
        assert(digit_bits(231131, 6) == 0b11000101110) by {
            reveal_with_fuel(digit_bits, 8);
        }
    }
    assert(code_bits(51) == iso_module_bits(51)) by {
        assert(pattern_codes()[51] == 213113);
        assert(digit_bits(213113, 6) == 0b11011101000) by {
            reveal_with_fuel(digit_bits, 8);
        }
    }
    assert(code_bits(52) == iso_module_bits(52)) by {
        assert(pattern_codes()[52] == 213311);
        assert(digit_bits(213311, 6) == 0b11011100010) by {
            reveal_with_fuel(digit_bits, 8);
        }
    }
    assert(code_bits(53) == iso_module_bits(53)) by {
        assert(pattern_codes()[53] == 213131);
        assert(digit_bits(213131, 6) == 0b11011101110) by {
            reveal_with_fuel(digit_bits, 8);
        }
    }
    assert(code_bits(54) == iso_module_bits(54)) by {
        assert(pattern_codes()[54] == 311123);
        assert(digit_bits(311123, 6) == 0b11101011000) by {
            reveal_with_fuel(digit_bits, 8);
        }
    }
    assert(code_bits(55) == iso_module_bits(55)) by {
        assert(pattern_codes()[55] == 311321);
        assert(digit_bits(311321, 6) == 0b11101000110) by {
            reveal_with_fuel(digit_bits, 8);
        }
    }
    assert(code_bits(56) == iso_module_bits(56)) by {
        assert(pattern_codes()[56] == 331121);
        assert(digit_bits(331121, 6) == 0b11100010110) by {
            reveal_with_fuel(digit_bits, 8);
        }
    }
    assert(code_bits(57) == iso_module_bits(57)) by {
        assert(pattern_codes()[57] == 312113);
        assert(digit_bits(312113, 6) == 0b11101101000) by {
            reveal_with_fuel(digit_bits, 8);
        }
    }
    assert(code_bits(58) == iso_module_bits(58)) by {
        assert(pattern_codes()[58] == 312311);
        assert(digit_bits(312311, 6) == 0b11101100010) by {
            reveal_with_fuel(digit_bits, 8);
        }
    }
    assert(code_bits(59) == iso_module_bits(59)) by {
        assert(pattern_codes()[59] == 332111);
        assert(digit_bits(332111, 6) == 0b11100011010) by {
            reveal_with_fuel(digit_bits, 8);
        }
    }
}

#[verifier::rlimit(100)]
#[verifier::spinoff_prover]
proof fn iso_rows_60_70()
    ensures
        forall|v: int| 60 <= v < 70 ==> #[trigger] code_bits(v) == iso_module_bits(v),
{
    assert(code_bits(60) == iso_module_bits(60)) by {
        assert(pattern_codes()[60] == 314111);
        assert(digit_bits(314111, 6) == 0b11101111010) by {
            reveal_with_fuel(digit_bits, 8);
        }
    }
    assert(code_bits(61) == iso_module_bits(61)) by {
        assert(pattern_codes()[61] == 221411);
        assert(digit_bits(221411, 6) == 0b11001000010) by {
            reveal_with_fuel(digit_bits, 8);
        }
    }
    assert(code_bits(62) == iso_module_bits(62)) by {
        assert(pattern_codes()[62] == 431111);
        assert(digit_bits(431111, 6) == 0b11110001010) by {
            reveal_with_fuel(digit_bits, 8);
        }
    }
    assert(code_bits(63) == iso_module_bits(63)) by {
        assert(pattern_codes()[63] == 111224);
        assert(digit_bits(111224, 6) == 0b10100110000) by {
            reveal_with_fuel(digit_bits, 8);
        }
    }
    assert(code_bits(64) == iso_module_bits(64)) by {
        assert(pattern_codes()[64] == 111422);
        assert(digit_bits(111422, 6) == 0b10100001100) by {
            reveal_with_fuel(digit_bits, 8);
        }
    }
    assert(code_bits(65) == iso_module_bits(65)) by {
        assert(pattern_codes()[65] == 121124);
        assert(digit_bits(121124, 6) == 0b10010110000) by {
            reveal_with_fuel(digit_bits, 8);
        }
    }
    assert(code_bits(66) == iso_module_bits(66)) by {
        assert(pattern_codes()[66] == 121421);
        assert(digit_bits(121421, 6) == 0b10010000110) by {
            reveal_with_fuel(digit_bits, 8);
        }
    }
    assert(code_bits(67) == iso_module_bits(67)) by {
        assert(pattern_codes()[67] == 141122);
        assert(digit_bits(141122, 6) == 0b10000101100) by {
            reveal_with_fuel(digit_bits, 8);
        }
    }
    assert(code_bits(68) == iso_module_bits(68)) by {
        assert(pattern_codes()[68] == 141221);
        assert(digit_bits(141221, 6) == 0b10000100110) by {
            reveal_with_fuel(digit_bits, 8);
        }
    }
    assert(code_bits(69) == iso_module_bits(69)) by {
        assert(pattern_codes()[69] == 112214);
        assert(digit_bits(112214, 6) == 0b10110010000) by {
            reveal_with_fuel(digit_bits, 8);
        }
    }
}

#[verifier::rlimit(100)]
#[verifier::spinoff_prover]
proof fn iso_rows_70_80()
    ensures
        forall|v: int| 70 <= v < 80 ==> #[trigger] code_bits(v) == iso_module_bits(v),
{
    assert(code_bits(70) == iso_module_bits(70)) by {
        assert(pattern_codes()[70] == 112412);
        assert(digit_bits(112412, 6) == 0b10110000100) by {
            reveal_with_fuel(digit_bits, 8);
        }
    }
    assert(code_bits(71) == iso_module_bits(71)) by {
        assert(pattern_codes()[71] == 122114);
        assert(digit_bits(122114, 6) == 0b10011010000) by {
            reveal_with_fuel(digit_bits, 8);
        }
    }
    assert(code_bits(72) == iso_module_bits(72)) by {
        assert(pattern_codes()[72] == 122411);
        assert(digit_bits(122411, 6) == 0b10011000010) by {
            reveal_with_fuel(digit_bits, 8);
        }
    }
    assert(code_bits(73) == iso_module_bits(73)) by {
        assert(pattern_codes()[73] == 142112);
        assert(digit_bits(142112, 6) == 0b10000110100) by {
            reveal_with_fuel(digit_bits, 8);
        }
    }
    assert(code_bits(74) == iso_module_bits(74)) by {
        assert(pattern_codes()[74] == 142211);
        assert(digit_bits(142211, 6) == 0b10000110010) by {
            reveal_with_fuel(digit_bits, 8);
        }
    }
    assert(code_bits(75) == iso_module_bits(75)) by {
        assert(pattern_codes()[75] == 241211);
        assert(digit_bits(241211, 6) == 0b11000010010) by {
            reveal_with_fuel(digit_bits, 8);
        }
    }
    assert(code_bits(76) == iso_module_bits(76)) by {
        assert(pattern_codes()[76] == 221114);
        assert(digit_bits(221114, 6) == 0b11001010000) by {
            reveal_with_fuel(digit_bits, 8);
        }
    }
    assert(code_bits(77) == iso_module_bits(77)) by {
        assert(pattern_codes()[77] == 413111);
        assert(digit_bits(413111, 6) == 0b11110111010) by {
            reveal_with_fuel(digit_bits, 8);
        }
    }
    assert(code_bits(78) == iso_module_bits(78)) by {
        assert(pattern_codes()[78] == 241112);
        assert(digit_bits(241112, 6) == 0b11000010100) by {
            reveal_with_fuel(digit_bits, 8);
        }
    }
    assert(code_bits(79) == iso_module_bits(79)) by {
        assert(pattern_codes()[79] == 134111);
        assert(digit_bits(134111, 6) == 0b10001111010) by {
            reveal_with_fuel(digit_bits, 8);
        }
    }
}

#[verifier::rlimit(100)]
#[verifier::spinoff_prover]
proof fn iso_rows_80_90()
    ensures
        forall|v: int| 80 <= v < 90 ==> #[trigger] code_bits(v) == iso_module_bits(v),
{
    assert(code_bits(80) == iso_module_bits(80)) by {
        assert(pattern_codes()[80] == 111242);
        assert(digit_bits(111242, 6) == 0b10100111100) by {
            reveal_with_fuel(digit_bits, 8);
        }
    }
    assert(code_bits(81) == iso_module_bits(81)) by {
        assert(pattern_codes()[81] == 121142);
        assert(digit_bits(121142, 6) == 0b10010111100) by {
            reveal_with_fuel(digit_bits, 8);
        }
    }
    assert(code_bits(82) == iso_module_bits(82)) by {
        assert(pattern_codes()[82] == 121241);
        assert(digit_bits(121241, 6) == 0b10010011110) by {
            reveal_with_fuel(digit_bits, 8);
        }
    }
    assert(code_bits(83) == iso_module_bits(83)) by {
        assert(pattern_codes()[83] == 114212);
        assert(digit_bits(114212, 6) == 0b10111100100) by {
            reveal_with_fuel(digit_bits, 8);
        }
    }
    assert(code_bits(84) == iso_module_bits(84)) by {
        assert(pattern_codes()[84] == 124112);
        assert(digit_bits(124112, 6) == 0b10011110100) by {
            reveal_with_fuel(digit_bits, 8);
        }
    }
    assert(code_bits(85) == iso_module_bits(85)) by {
        assert(pattern_codes()[85] == 124211);
        assert(digit_bits(124211, 6) == 0b10011110010) by {
            reveal_with_fuel(digit_bits, 8);
        }
    }
    assert(code_bits(86) == iso_module_bits(86)) by {
        assert(pattern_codes()[86] == 411212);
        assert(digit_bits(411212, 6) == 0b11110100100) by {
            reveal_with_fuel(digit_bits, 8);
        }
    }
    assert(code_bits(87) == iso_module_bits(87)) by {
        assert(pattern_codes()[87] == 421112);
        assert(digit_bits(421112, 6) == 0b11110010100) by {
            reveal_with_fuel(digit_bits, 8);
        }
    }
    assert(code_bits(88) == iso_module_bits(88)) by {
        assert(pattern_codes()[88] == 421211);
        assert(digit_bits(421211, 6) == 0b11110010010) by {
            reveal_with_fuel(digit_bits, 8);
        }
    }
    assert(code_bits(89) == iso_module_bits(89)) by {
        assert(pattern_codes()[89] == 212141);
        assert(digit_bits(212141, 6) == 0b11011011110) by {
            reveal_with_fuel(digit_bits, 8);
        }
    }
}

#[verifier::rlimit(100)]
#[verifier::spinoff_prover]
proof fn iso_rows_90_100()
    ensures
        forall|v: int| 90 <= v < 100 ==> #[trigger] code_bits(v) == iso_module_bits(v),
{
    assert(code_bits(90) == iso_module_bits(90)) by {
        assert(pattern_codes()[90] == 214121);
        assert(digit_bits(214121, 6) == 0b11011110110) by {
            reveal_with_fuel(digit_bits, 8);
        }
    }
    assert(code_bits(91) == iso_module_bits(91)) by {
        assert(pattern_codes()[91] == 412121);
        assert(digit_bits(412121, 6) == 0b11110110110) by {
            reveal_with_fuel(digit_bits, 8);
        }
    }
    assert(code_bits(92) == iso_module_bits(92)) by {
        assert(pattern_codes()[92] == 111143);
        assert(digit_bits(111143, 6) == 0b10101111000) by {
            reveal_with_fuel(digit_bits, 8);
        }
    }
    assert(code_bits(93) == iso_module_bits(93)) by {
        assert(pattern_codes()[93] == 111341);
        assert(digit_bits(111341, 6) == 0b10100011110) by {
            reveal_with_fuel(digit_bits, 8);
        }
    }
    assert(code_bits(94) == iso_module_bits(94)) by {
        assert(pattern_codes()[94] == 131141);
        assert(digit_bits(131141, 6) == 0b10001011110) by {
            reveal_with_fuel(digit_bits, 8);
        }
    }
    assert(code_bits(95) == iso_module_bits(95)) by {
        assert(pattern_codes()[95] == 114113);
        assert(digit_bits(114113, 6) == 0b10111101000) by {
            reveal_with_fuel(digit_bits, 8);
        }
    }
    assert(code_bits(96) == iso_module_bits(96)) by {
        assert(pattern_codes()[96] == 114311);
        assert(digit_bits(114311, 6) == 0b10111100010) by {
            reveal_with_fuel(digit_bits, 8);
        }
    }
    assert(code_bits(97) == iso_module_bits(97)) by {
        assert(pattern_codes()[97] == 411113);
        assert(digit_bits(411113, 6) == 0b11110101000) by {
            reveal_with_fuel(digit_bits, 8);
        }
    }
    assert(code_bits(98) == iso_module_bits(98)) by {
        assert(pattern_codes()[98] == 411311);
        assert(digit_bits(411311, 6) == 0b11110100010) by {
            reveal_with_fuel(digit_bits, 8);
        }
    }
    assert(code_bits(99) == iso_module_bits(99)) by {
        assert(pattern_codes()[99] == 113141);
        assert(digit_bits(113141, 6) == 0b10111011110) by {
            reveal_with_fuel(digit_bits, 8);
        }
    }
}

#[verifier::rlimit(100)]
#[verifier::spinoff_prover]
proof fn iso_rows_100_107()
    ensures
        forall|v: int| 100 <= v < 107 ==> #[trigger] code_bits(v) == iso_module_bits(v),
{
    assert(code_bits(100) == iso_module_bits(100)) by {
        assert(pattern_codes()[100] == 114131);
        assert(digit_bits(114131, 6) == 0b10111101110) by {
            reveal_with_fuel(digit_bits, 8);
        }
    }
    assert(code_bits(101) == iso_module_bits(101)) by {
        assert(pattern_codes()[101] == 311141);
        assert(digit_bits(311141, 6) == 0b11101011110) by {
            reveal_with_fuel(digit_bits, 8);
        }
    }
    assert(code_bits(102) == iso_module_bits(102)) by {
        assert(pattern_codes()[102] == 411131);
        assert(digit_bits(411131, 6) == 0b11110101110) by {
            reveal_with_fuel(digit_bits, 8);
        }
    }
    assert(code_bits(103) == iso_module_bits(103)) by {
        assert(pattern_codes()[103] == 211412);
        assert(digit_bits(211412, 6) == 0b11010000100) by {
            reveal_with_fuel(digit_bits, 8);
        }
    }
    assert(code_bits(104) == iso_module_bits(104)) by {
        assert(pattern_codes()[104] == 211214);
        assert(digit_bits(211214, 6) == 0b11010010000) by {
            reveal_with_fuel(digit_bits, 8);
        }
    }
    assert(code_bits(105) == iso_module_bits(105)) by {
        assert(pattern_codes()[105] == 211232);
        assert(digit_bits(211232, 6) == 0b11010011100) by {
            reveal_with_fuel(digit_bits, 8);
        }
    }
    assert(code_bits(106) == iso_module_bits(106)) by {
        assert(pattern_codes()[106] == 2331112);
        assert(digit_bits(2331112, 7) == 0b1100011101011) by {
            reveal_with_fuel(digit_bits, 8);
        }
    }
}

/// Every symbol value's element widths are those of the ISO/IEC 15417 Code 128 table: reading
/// the elements of value `v` as bar and space modules gives exactly the standard's modules for
/// `v`.
pub proof fn patterns_follow_iso_table()
    ensures
        forall|v: int| 0 <= v < SYMBOL_COUNT as int ==> element_bits(#[trigger] pattern_elements(v)) == iso_module_bits(v),
{
    iso_rows_0_10();
    iso_rows_10_20();
    iso_rows_20_30();
    iso_rows_30_40();
    iso_rows_40_50();
    iso_rows_50_60();
    iso_rows_60_70();
    iso_rows_70_80();
    iso_rows_80_90();
    iso_rows_90_100();
    iso_rows_100_107();
    assert forall|v: int| 0 <= v < SYMBOL_COUNT as int implies element_bits(#[trigger] pattern_elements(v))
        == iso_module_bits(v) by {
        assert(code_bits(v) == iso_module_bits(v));
        digits_bits(pattern_codes()[v] as nat, pattern_width(v));
    }
}

proof fn elements_of_blocks(values: Seq<int>, k: int)
    requires
        forall|i: int| 0 <= i < values.len() ==> 0 <= #[trigger] values[i] < STOP as int,
        0 <= k < values.len(),
    ensures
        elements_of(values).len() == 6 * values.len(),
        elements_of(values).subrange(6 * k, 6 * k + 6) == pattern_elements(values[k]),
    decreases values.len(),
{
    let init = values.drop_last();
    elements_of_len(values);
    elements_of_len(init);
    decimal_digits_len(pattern_codes()[values.last()] as nat, 6);
    let whole = elements_of(values);
    assert(whole == elements_of(init) + pattern_elements(values.last()));
    if k < values.len() - 1 {
        elements_of_blocks(init, k);
        assert(whole.subrange(6 * k, 6 * k + 6) =~= elements_of(init).subrange(6 * k, 6 * k + 6));
    } else {
        assert(whole.subrange(6 * k, 6 * k + 6) =~= pattern_elements(values.last()));
    }
}

/// Decoding a Code 128-B symbol with the standard table gives back what was encoded: the first
/// six elements read as Start B, each next six as the Code B value (code point minus 32) of the
/// next character of `data`, then six as the modulo-103 check value (Start B plus each value
/// weighted by its 1-based position), and the last seven as Stop.
pub proof fn code128b_decodes_with_iso_table(data: Seq<char>)
    requires
        code128b_spec(data) is Some,
    ensures
        ({
            let out = code128b_spec(data)->0;
            let n = data.len() as int;
            &&& out.len() == 6 * (n + 2) + 7
            &&& element_bits(out.subrange(0, 6)) == iso_module_bits(104)
            &&& forall|i: int|
                0 <= i < n ==> element_bits(#[trigger] out.subrange(6 * (i + 1), 6 * (i + 2))) == iso_module_bits(
                    data[i] as int - 32,
                )
            &&& element_bits(out.subrange(6 * (n + 1), 6 * (n + 2))) == iso_module_bits(
                (104 + weighted_sum(data.map_values(|c: char| c as int - 32))) % 103,
            )
            &&& element_bits(out.subrange(6 * (n + 2), 6 * (n + 2) + 7)) == iso_module_bits(106)
        }),
{
    let n = data.len() as int;
    let values = symbol_values(data);
    let front = values.drop_last();
    let out = code128b_spec(data)->0;
    assert forall|i: int| 0 <= i < front.len() implies 0 <= #[trigger] front[i] < STOP as int by {
        if 1 <= i <= n {
            assert(is_code_b(data[i - 1]));
        }
    }
    assert(values.len() == n + 3);
    patterns_follow_iso_table();
    code128b_element_count(data);
    elements_of_len(front);
    assert(out == elements_of(front) + pattern_elements(STOP as int));
    assert forall|k: int| 0 <= k < front.len() implies #[trigger] out.subrange(6 * k, 6 * k + 6) == pattern_elements(
        front[k],
    ) by {
        elements_of_blocks(front, k);
        assert(out.subrange(6 * k, 6 * k + 6) =~= elements_of(front).subrange(6 * k, 6 * k + 6));
    }
    let k0: int = 0;
    assert(out.subrange(6 * k0, 6 * k0 + 6) == pattern_elements(front[k0]));
    assert(out.subrange(0, 6) == pattern_elements(front[0]));
    assert forall|i: int| 0 <= i < n implies element_bits(#[trigger] out.subrange(6 * (i + 1), 6 * (i + 2)))
        == iso_module_bits(data[i] as int - 32) by {
        assert(out.subrange(6 * (i + 1), 6 * (i + 1) + 6) == pattern_elements(front[i + 1]));
        assert(front[i + 1] == data[i] as int - 32);
    }
    assert(out.subrange(6 * (n + 1), 6 * (n + 1) + 6) == pattern_elements(front[n + 1]));
    assert(data.map_values(|c: char| c as int - 32) =~= data.map_values(|c: char| code_b_value(c)));
    assert(out.subrange(6 * (n + 2), 6 * (n + 2) + 7) =~= pattern_elements(STOP as int));
}

/// The check value, as a relation between two encodings: appending a character `c` to data whose
/// check value is `k` gives `(k + (n + 1) * (c - 32)) mod 103`, where `n` is the old length; a
/// single character `c` alone checks as `(104 + c - 32) mod 103`.
pub proof fn checksum_appends(data: Seq<char>, c: char)
    ensures
        checksum(data.push(c)) == (checksum(data) + (data.len() + 1) * (c as int - 32)) % 103,
        checksum(seq![c]) == (104 + c as int - 32) % 103,
{
    let vals = data.map_values(|x: char| code_b_value(x));
    let vals2 = data.push(c).map_values(|x: char| code_b_value(x));
    assert(vals2.drop_last() =~= vals);
    assert(vals2.last() == c as int - 32);
    let w = weighted_sum(vals);
    assert(weighted_sum(vals2) == w + (data.len() + 1) * (c as int - 32));
    let a = START_B as int + w;
    let b = (data.len() + 1) * (c as int - 32);
    assert((a + b) % 103 == (a % 103 + b) % 103) by (nonlinear_arith);
    let one = seq![c].map_values(|x: char| code_b_value(x));
    assert(one.len() == 1);
    assert(one.last() == c as int - 32);
    assert(one.drop_last() =~= Seq::<int>::empty());
    assert(weighted_sum(one.drop_last()) == 0);
    assert(weighted_sum(one) == c as int - 32);
}
} // verus!
