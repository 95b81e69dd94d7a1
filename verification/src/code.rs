//! Session codes: six characters that a viewer types to find a host.

use vstd::prelude::*;

verus! {

/// How many characters a session code has.
pub const CODE_LENGTH: usize = 6;

/// How many different characters a session code is made of.
pub const CODE_SYMBOLS: u8 = 36;

/// How many different session codes there are.
pub const CODE_COUNT: u64 = 2_176_782_336;

/// The character number `index` of session codes: the ten digits, then the
/// letters in upper case.
pub open spec fn code_symbol(index: u8) -> char {
    if index < 10 {
        (48 + index) as char
    } else {
        (55 + index) as char
    }
}

/// Whether `c` can stand in a session code.
pub open spec fn is_code_symbol(c: char) -> bool {
    '0' <= c <= '9' || 'A' <= c <= 'Z'
}

/// Whether `text` is a session code.
pub open spec fn is_code(text: Seq<char>) -> bool {
    &&& text.len() == CODE_LENGTH
    &&& forall|i: int| 0 <= i < text.len() ==> is_code_symbol(#[trigger] text[i])
}

/// The text whose characters have the given numbers.
pub open spec fn code_text(indices: Seq<u8>) -> Seq<char> {
    indices.map_values(|index: u8| code_symbol(index))
}

/// Writes the session code whose characters have the given numbers.
pub fn code_from_indices(indices: &Vec<u8>) -> (code: String)
    requires
        indices@.len() == CODE_LENGTH,
        forall|i: int| 0 <= i < indices@.len() ==> #[trigger] indices@[i] < CODE_SYMBOLS,
    ensures
        code@ == code_text(indices@),
        is_code(code@),
        code@.len() == 6,
        forall|i: int|
            0 <= i < indices@.len() ==> (#[trigger] code@[i]) as int == if indices@[i] < 10 {
                '0' as int + indices@[i]
            } else {
                'A' as int + indices@[i] - 10
            },
{
    let mut code = String::new();
    let mut i: usize = 0;
    while i < indices.len()
        invariant
            i <= indices@.len(),
            forall|j: int| 0 <= j < indices@.len() ==> #[trigger] indices@[j] < CODE_SYMBOLS,
            code@ == code_text(indices@.take(i as int)),
        decreases indices@.len() - i,
    {
        let index: u8 = indices[i];
        let symbol: u8 = if index < 10 {
            48 + index
        } else {
            55 + index
        };
        code.push(symbol as char);
        i = i + 1;
        assert(code@ =~= code_text(indices@.take(i as int)));
    }
    assert(indices@.take(i as int) =~= indices@);
    proof {
        lemma_indices_give_code(indices@);
    }
    code
}

/// `rand::Rng::gen_range` on `rand::thread_rng()`: a number drawn from those
/// below `bound`.
///
/// Claimed of it: the number is below `bound`.  Which one comes is left to chance.
#[verifier::external_body]
fn random_below(bound: u8) -> (drawn: u8)
    requires
        0 < bound,
    ensures
        drawn < bound,
{
    rand::Rng::gen_range(&mut rand::thread_rng(), 0..bound)
}

/// Draws a session code.
pub fn gen_code() -> (code: String)
    ensures
        is_code(code@),
{
    let mut indices: Vec<u8> = Vec::new();
    while indices.len() < CODE_LENGTH
        invariant
            indices@.len() <= CODE_LENGTH,
            forall|i: int| 0 <= i < indices@.len() ==> #[trigger] indices@[i] < CODE_SYMBOLS,
        decreases CODE_LENGTH - indices@.len(),
    {
        indices.push(random_below(CODE_SYMBOLS));
    }
    code_from_indices(&indices)
}

/// Whatever numbers are drawn, the text is a session code.
pub proof fn lemma_indices_give_code(indices: Seq<u8>)
    requires
        indices.len() == CODE_LENGTH,
        forall|i: int| 0 <= i < indices.len() ==> #[trigger] indices[i] < CODE_SYMBOLS,
    ensures
        is_code(code_text(indices)),
{
    let text = code_text(indices);
    assert forall|i: int| 0 <= i < text.len() implies is_code_symbol(#[trigger] text[i]) by {
        assert(indices[i] < CODE_SYMBOLS);
    }
}

/// Different draws give different codes.
pub proof fn lemma_draws_give_different_codes(a: Seq<u8>, b: Seq<u8>)
    requires
        forall|i: int| 0 <= i < a.len() ==> #[trigger] a[i] < CODE_SYMBOLS,
        forall|i: int| 0 <= i < b.len() ==> #[trigger] b[i] < CODE_SYMBOLS,
        code_text(a) == code_text(b),
    ensures
        a == b,
{
    assert(code_text(a).len() == a.len() && code_text(b).len() == b.len());
    assert forall|i: int| 0 <= i < a.len() implies a[i] == b[i] by {
        assert(code_text(a)[i] == code_symbol(a[i]));
        assert(code_text(b)[i] == code_symbol(b[i]));
        assert(a[i] < CODE_SYMBOLS && b[i] < CODE_SYMBOLS);
        assert(code_symbol(a[i]) as int == if a[i] < 10 {
            48 + a[i]
        } else {
            55 + a[i]
        });
        assert(code_symbol(b[i]) as int == if b[i] < 10 {
            48 + b[i]
        } else {
            55 + b[i]
        });
    }
    assert(a =~= b);
}

/// Every session code can be drawn.
pub proof fn lemma_every_code_can_be_drawn(code: Seq<char>) -> (indices: Seq<u8>)
    requires
        is_code(code),
    ensures
        indices.len() == CODE_LENGTH,
        forall|i: int| 0 <= i < indices.len() ==> #[trigger] indices[i] < CODE_SYMBOLS,
        code_text(indices) == code,
{
    let indices = Seq::new(
        code.len(),
        |i: int|
            if code[i] <= '9' {
                (code[i] as int - 48) as u8
            } else {
                (code[i] as int - 55) as u8
            },
    );
    assert forall|i: int| 0 <= i < indices.len() implies #[trigger] indices[i] < CODE_SYMBOLS
        && code_symbol(indices[i]) == code[i] by {
        assert(is_code_symbol(code[i]));
    }
    assert(code_text(indices) =~= code);
    indices
}

/// The six numbers of characters that make up the session code number `n`.
pub open spec fn number_indices(n: int) -> Seq<u8> {
    seq![
        (n / 60_466_176 % 36) as u8,
        (n / 1_679_616 % 36) as u8,
        (n / 46_656 % 36) as u8,
        (n / 1_296 % 36) as u8,
        (n / 36 % 36) as u8,
        (n % 36) as u8,
    ]
}

/// The session code number `n`, in the order of digits before letters.
pub open spec fn numbered_code(n: int) -> Seq<char> {
    code_text(number_indices(n))
}

/// Writes the session code number `n`.
pub fn code_with_number(n: u64) -> (code: String)
    ensures
        code@ == numbered_code(n as int),
        is_code(code@),
{
    let indices: Vec<u8> = vec![
        (n / 60_466_176 % 36) as u8,
        (n / 1_679_616 % 36) as u8,
        (n / 46_656 % 36) as u8,
        (n / 1_296 % 36) as u8,
        (n / 36 % 36) as u8,
        (n % 36) as u8,
    ];
    assert(indices@ =~= number_indices(n as int));
    code_from_indices(&indices)
}

/// Every session code has a number.
pub proof fn lemma_code_has_number(code: Seq<char>) -> (n: int)
    requires
        is_code(code),
    ensures
        0 <= n < CODE_COUNT,
        numbered_code(n) == code,
{
    let indices = lemma_every_code_can_be_drawn(code);
    let a = indices[0] as int;
    let b = indices[1] as int;
    let c = indices[2] as int;
    let d = indices[3] as int;
    let e = indices[4] as int;
    let f = indices[5] as int;
    let n = ((((a * 36 + b) * 36 + c) * 36 + d) * 36 + e) * 36 + f;
    assert(n / 36 == (((a * 36 + b) * 36 + c) * 36 + d) * 36 + e && n % 36 == f);
    assert(n / 1_296 == ((a * 36 + b) * 36 + c) * 36 + d);
    assert(n / 46_656 == (a * 36 + b) * 36 + c);
    assert(n / 1_679_616 == a * 36 + b);
    assert(n / 60_466_176 == a);
    assert(number_indices(n) =~= indices);
    n
}

/// Different numbers below the count of codes give different codes.
pub proof fn lemma_numbers_give_different_codes(m: int, n: int)
    requires
        0 <= m < CODE_COUNT,
        0 <= n < CODE_COUNT,
        numbered_code(m) == numbered_code(n),
    ensures
        m == n,
{
    let a = number_indices(m);
    let b = number_indices(n);
    lemma_draws_give_different_codes(a, b);
    assert(a[0] == b[0] && a[1] == b[1] && a[2] == b[2] && a[3] == b[3] && a[4] == b[4] && a[5]
        == b[5]);
    lemma_digits(m);
    lemma_digits(n);
}

/// A number below the count of codes is made up of its digits.
proof fn lemma_digits(n: int)
    requires
        0 <= n < CODE_COUNT,
    ensures
        n == ((((number_indices(n)[0] * 36 + number_indices(n)[1]) * 36 + number_indices(n)[2]) * 36
            + number_indices(n)[3]) * 36 + number_indices(n)[4]) * 36 + number_indices(n)[5],
{
    assert(n / 36 / 36 == n / 1_296);
    assert(n / 1_296 / 36 == n / 46_656);
    assert(n / 46_656 / 36 == n / 1_679_616);
    assert(n / 1_679_616 / 36 == n / 60_466_176);
    assert(0 <= n / 60_466_176 < 36);
}

/// The characters of a code are the ten digits in order and then the letters in order:
/// each is one after the character before it, but for the step from nine to A.
pub proof fn lemma_symbols_in_order(index: u8)
    requires
        index < CODE_SYMBOLS,
    ensures
        index == 0 ==> code_symbol(index) == '0',
        index == 10 ==> code_symbol(index) == 'A',
        index != 0 && index != 10 ==> code_symbol(index) as int == code_symbol((index - 1) as u8)
            as int + 1,
        index < 10 <==> '0' <= code_symbol(index) <= '9',
        index >= 10 <==> 'A' <= code_symbol(index) <= 'Z',
{
}

/// A code has six characters, and each is a digit or an upper-case letter.
pub proof fn lemma_code_shape(code: Seq<char>, i: int)
    requires
        is_code(code),
        0 <= i < code.len(),
    ensures
        code.len() == 6,
        '0' <= code[i] <= '9' || 'A' <= code[i] <= 'Z',
{
    assert(is_code_symbol(code[i]));
}

} // verus!
