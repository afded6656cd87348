use vstd::prelude::*;

use vstd::arithmetic::div_mod::lemma_mod_breakdown;

verus! {

/// Byte order of the numbers stored in ROM.
#[derive(Clone, Copy, Debug, PartialEq, Eq, Structural)]
pub enum Endianness {
    /// Little Endian
    Little,
    /// Big Endian
    Big,
}

/// Element type of the numbers stored in a calibration table.
#[derive(Clone, Copy, Debug, PartialEq, Eq, Structural)]
pub enum DataType {
    I8,
    U8,
    I16,
    U16,
    I32,
    U32,
    I64,
    U64,
    F32,
    F64,
}

impl DataType {
    /// Width in bytes of one element of this type.
    pub open spec fn spec_byte_size(self) -> nat {
        match self {
            DataType::I8 | DataType::U8 => 1,
            DataType::I16 | DataType::U16 => 2,
            DataType::I32 | DataType::U32 | DataType::F32 => 4,
            DataType::I64 | DataType::U64 | DataType::F64 => 8,
        }
    }

    /// Returns the width in bytes of one element.
    pub fn byte_size(&self) -> (r: usize)
        ensures
            r == self.spec_byte_size(),
    {
        match self {
            DataType::I8 | DataType::U8 => 1,
            DataType::I16 | DataType::U16 => 2,
            DataType::I32 | DataType::U32 | DataType::F32 => 4,
            DataType::I64 | DataType::U64 | DataType::F64 => 8,
        }
    }
}

/// 256 to the power `n`.
pub open spec fn pow256(n: nat) -> nat
    decreases n,
{
    if n == 0 {
        1
    } else {
        256 * pow256((n - 1) as nat)
    }
}

/// Value of `bytes` read as an unsigned big-endian integer.
pub open spec fn be_value(bytes: Seq<u8>) -> nat
    decreases bytes.len(),
{
    if bytes.len() == 0 {
        0
    } else {
        be_value(bytes.drop_last()) * 256 + bytes.last() as nat
    }
}

/// Value of `bytes` read as an unsigned little-endian integer.
pub open spec fn le_value(bytes: Seq<u8>) -> nat
    decreases bytes.len(),
{
    if bytes.len() == 0 {
        0
    } else {
        bytes[0] as nat + 256 * le_value(bytes.drop_first())
    }
}

/// Value of `bytes` read as an unsigned integer in byte order `order`.
pub open spec fn word_value(bytes: Seq<u8>, order: Endianness) -> nat {
    match order {
        Endianness::Big => be_value(bytes),
        Endianness::Little => le_value(bytes),
    }
}

/// The `i`-th element's bytes when elements are `width` bytes wide.
pub open spec fn element_bytes(bytes: Seq<u8>, width: nat, i: int) -> Seq<u8> {
    bytes.subrange(i * width, i * width + width)
}

proof fn lemma_pow256_bound(n: nat)
    requires
        n <= 8,
    ensures
        1 <= pow256(n) <= pow256(8),
        pow256(8) == 0x1_0000_0000_0000_0000,
    decreases n,
{
    reveal_with_fuel(pow256, 9);
    if n > 0 {
        lemma_pow256_bound((n - 1) as nat);
    }
}

/// Reads the unsigned integer held by `bytes[start..start + width]` in `order`.
pub fn read_word(bytes: &[u8], start: usize, width: usize, order: Endianness) -> (r: u64)
    requires
        width <= 8,
        start + width <= bytes@.len(),
    ensures
        r == word_value(bytes@.subrange(start as int, start + width), order),
{
    let n = bytes.len();
    assert(start + width <= n);
    let end = start + width;
    let mut acc: u64 = 0;
    match order {
        Endianness::Big => {
            let mut i: usize = start;
            while i < end
                invariant
                    width <= 8,
                    end == start + width <= bytes@.len(),
                    start <= i <= end,
                    acc == be_value(bytes@.subrange(start as int, i as int)),
                    acc < pow256((i - start) as nat),
                decreases end - i,
            {
                proof {
                    lemma_pow256_bound((i + 1 - start) as nat);
                    let p = pow256((i - start) as nat);
                    assert(pow256((i + 1 - start) as nat) == 256 * p);
                    assert(acc * 256 + bytes@[i as int] < 256 * p) by (nonlinear_arith)
                        requires
                            acc < p,
                            bytes@[i as int] < 256,
                    ;
                    let s = bytes@.subrange(start as int, i + 1);
                    assert(s.drop_last() =~= bytes@.subrange(start as int, i as int));
                }
                acc = acc * 256 + bytes[i] as u64;
                i = i + 1;
            }
        },
        Endianness::Little => {
            let mut i: usize = end;
            while i > start
                invariant
                    width <= 8,
                    end == start + width <= bytes@.len(),
                    start <= i <= end,
                    acc == le_value(bytes@.subrange(i as int, end as int)),
                    acc < pow256((end - i) as nat),
                decreases i - start,
            {
                proof {
                    lemma_pow256_bound((end - i + 1) as nat);
                    let p = pow256((end - i) as nat);
                    assert(pow256((end - i + 1) as nat) == 256 * p);
                    assert(bytes@[i - 1] + 256 * acc < 256 * p) by (nonlinear_arith)
                        requires
                            acc < p,
                            bytes@[i - 1] < 256,
                    ;
                    let s = bytes@.subrange(i - 1, end as int);
                    assert(s.drop_first() =~= bytes@.subrange(i as int, end as int));
                }
                acc = bytes[i - 1] as u64 + 256 * acc;
                i = i - 1;
            }
        },
    }
    acc
}

/// Splits `bytes` into `length` elements of `data_type` in byte order
/// `order`, each read as an unsigned word; signed and floating-point
/// elements come as their bit patterns. `None` where `bytes` is too short.
pub fn decode_words(data_type: DataType, order: Endianness, bytes: &[u8], length: usize) -> (r:
    Option<Vec<u64>>)
    ensures
        r is Some <==> length * data_type.spec_byte_size() <= bytes@.len(),
        r matches Some(v) ==> v@.len() == length && forall|i: int|
            0 <= i < length ==> v@[i] == word_value(
                #[trigger] element_bytes(bytes@, data_type.spec_byte_size(), i),
                order,
            ),
{
    let width = data_type.byte_size();
    if length > bytes.len() / width {
        proof {
            assert(length * width > bytes@.len()) by (nonlinear_arith)
                requires
                    width >= 1,
                    length > (bytes@.len() as int) / (width as int),
            ;
        }
        return None;
    }
    proof {
        assert(length * width <= bytes@.len()) by (nonlinear_arith)
            requires
                width >= 1,
                length <= (bytes@.len() as int) / (width as int),
        ;
    }
    let mut words: Vec<u64> = Vec::with_capacity(length);
    let mut i: usize = 0;
    let mut start: usize = 0;
    while i < length
        invariant
            1 <= width <= 8,
            width == data_type.spec_byte_size(),
            bytes@.len() <= usize::MAX,
            length * width <= bytes@.len(),
            i <= length,
            start == i * width,
            words@.len() == i,
            forall|k: int|
                0 <= k < i ==> words@[k] == word_value(
                    #[trigger] element_bytes(bytes@, width as nat, k),
                    order,
                ),
        decreases length - i,
    {
        proof {
            assert((i + 1) * width <= length * width) by (nonlinear_arith)
                requires
                    i < length,
            ;
            assert((i + 1) * width == i * width + width) by (nonlinear_arith);
        }
        let w = read_word(bytes, start, width, order);
        words.push(w);
        assert(element_bytes(bytes@, width as nat, i as int) == bytes@.subrange(
            start as int,
            start + width,
        ));
        i = i + 1;
        start = start + width;
    }
    Some(words)
}

/// The `width` bytes of the low part of `x`, least significant first.
pub open spec fn le_bytes(x: nat, width: nat) -> Seq<u8>
    decreases width,
{
    if width == 0 {
        Seq::empty()
    } else {
        seq![(x % 256) as u8] + le_bytes(x / 256, (width - 1) as nat)
    }
}

/// The `width` bytes of the low part of `x` in byte order `order`.
pub open spec fn word_bytes(x: nat, width: nat, order: Endianness) -> Seq<u8> {
    match order {
        Endianness::Big => le_bytes(x, width).reverse(),
        Endianness::Little => le_bytes(x, width),
    }
}

/// `words`, each written as `width` bytes in byte order `order`, one after another.
pub open spec fn words_bytes(words: Seq<u64>, width: nat, order: Endianness) -> Seq<u8>
    decreases words.len(),
{
    if words.len() == 0 {
        Seq::empty()
    } else {
        words_bytes(words.drop_last(), width, order) + word_bytes(
            words.last() as nat,
            width,
            order,
        )
    }
}

/// Appends the low `width` bytes of `x` to `out` in byte order `order`.
pub fn write_word(out: &mut Vec<u8>, x: u64, width: usize, order: Endianness)
    ensures
        final(out)@ == old(out)@ + word_bytes(x as nat, width as nat, order),
{
    let mut le: Vec<u8> = Vec::with_capacity(width);
    let mut y: u64 = x;
    let mut j: usize = 0;
    while j < width
        invariant
            j <= width,
            le@.len() == j,
            le@ + le_bytes(y as nat, (width - j) as nat) == le_bytes(x as nat, width as nat),
        decreases width - j,
    {
        proof {
            assert(le_bytes(y as nat, (width - j) as nat) == seq![(y % 256) as u8] + le_bytes(
                (y / 256) as nat,
                (width - j - 1) as nat,
            ));
            assert(le@.push((y % 256) as u8) + le_bytes((y / 256) as nat, (width - j - 1) as nat)
                =~= le@ + le_bytes(y as nat, (width - j) as nat));
        }
        le.push((y % 256) as u8);
        y = y / 256;
        j = j + 1;
    }
    assert(le@ =~= le_bytes(x as nat, width as nat));
    match order {
        Endianness::Little => {
            let mut k: usize = 0;
            while k < width
                invariant
                    le@.len() == width,
                    k <= width,
                    out@ == old(out)@ + le@.subrange(0, k as int),
                decreases width - k,
            {
                out.push(le[k]);
                k = k + 1;
                assert(out@ =~= old(out)@ + le@.subrange(0, k as int));
            }
            assert(le@.subrange(0, width as int) =~= le@);
        },
        Endianness::Big => {
            let mut k: usize = 0;
            while k < width
                invariant
                    le@.len() == width,
                    k <= width,
                    out@ == old(out)@ + le@.reverse().subrange(0, k as int),
                decreases width - k,
            {
                out.push(le[width - 1 - k]);
                k = k + 1;
                assert(out@ =~= old(out)@ + le@.reverse().subrange(0, k as int));
            }
            assert(le@.reverse().subrange(0, width as int) =~= le@.reverse());
        },
    }
}

/// Writes `words` as elements of `data_type` in byte order `order`: each
/// word's low bytes, one element after another.
pub fn encode_words(data_type: DataType, order: Endianness, words: &[u64]) -> (r: Vec<u8>)
    ensures
        r@ == words_bytes(words@, data_type.spec_byte_size(), order),
{
    let width = data_type.byte_size();
    let mut out: Vec<u8> = Vec::new();
    let mut i: usize = 0;
    while i < words.len()
        invariant
            width == data_type.spec_byte_size(),
            i <= words@.len(),
            out@ == words_bytes(words@.subrange(0, i as int), width as nat, order),
        decreases words@.len() - i,
    {
        write_word(&mut out, words[i], width, order);
        proof {
            let s = words@.subrange(0, i + 1);
            assert(s.drop_last() =~= words@.subrange(0, i as int));
            assert(s.last() == words@[i as int]);
        }
        i = i + 1;
    }
    assert(words@.subrange(0, words@.len() as int) =~= words@);
    out
}

proof fn lemma_pow256_positive(n: nat)
    ensures
        pow256(n) >= 1,
    decreases n,
{
    if n > 0 {
        lemma_pow256_positive((n - 1) as nat);
    }
}

proof fn lemma_le_bytes_value(x: nat, width: nat)
    ensures
        le_bytes(x, width).len() == width,
        le_value(le_bytes(x, width)) == x % pow256(width),
    decreases width,
{
    if width > 0 {
        let w1 = (width - 1) as nat;
        lemma_le_bytes_value(x / 256, w1);
        lemma_pow256_positive(w1);
        let s = le_bytes(x, width);
        assert(s.drop_first() =~= le_bytes(x / 256, w1));
        lemma_mod_breakdown(x as int, 256, pow256(w1) as int);
    } else {
        assert(x % 1 == 0);
    }
}

proof fn lemma_be_value_reverse(s: Seq<u8>)
    ensures
        be_value(s.reverse()) == le_value(s),
    decreases s.len(),
{
    if s.len() > 0 {
        let r = s.reverse();
        assert(r.drop_last() =~= s.drop_first().reverse());
        assert(r.last() == s[0]);
        lemma_be_value_reverse(s.drop_first());
    }
}

proof fn lemma_word_bytes_value(x: nat, width: nat, order: Endianness)
    ensures
        word_bytes(x, width, order).len() == width,
        word_value(word_bytes(x, width, order), order) == x % pow256(width),
{
    lemma_le_bytes_value(x, width);
    lemma_be_value_reverse(le_bytes(x, width));
}

proof fn lemma_words_bytes_elements(words: Seq<u64>, width: nat, order: Endianness)
    ensures
        words_bytes(words, width, order).len() == words.len() * width,
        forall|i: int|
            0 <= i < words.len() ==> #[trigger] element_bytes(
                words_bytes(words, width, order),
                width,
                i,
            ) == word_bytes(words[i] as nat, width, order),
    decreases words.len(),
{
    if words.len() > 0 {
        let n = words.len() - 1;
        let front = words.drop_last();
        lemma_words_bytes_elements(front, width, order);
        lemma_word_bytes_value(words.last() as nat, width, order);
        let all = words_bytes(words, width, order);
        let head = words_bytes(front, width, order);
        assert(head.len() == n * width);
        assert(all.len() == words.len() * width) by (nonlinear_arith)
            requires
                all.len() == n * width + width,
                n == words.len() - 1,
        ;
        assert forall|i: int| 0 <= i < words.len() implies #[trigger] element_bytes(
            all,
            width,
            i,
        ) == word_bytes(words[i] as nat, width, order) by {
            if i < n {
                assert(i * width + width <= n * width) by (nonlinear_arith)
                    requires
                        i < n,
                ;
                assert(element_bytes(all, width, i) =~= element_bytes(head, width, i));
                assert(words[i] == front[i]);
            } else {
                assert(element_bytes(all, width, i) =~= word_bytes(words.last() as nat, width, order));
            }
        }
    }
}

/// Reading back what `encode_words` wrote gives each word cut to the
/// element width: for every `words`, `decode_words` on the encoded bytes
/// returns `words[i] % 256^width` for each `i`.
pub proof fn lemma_words_round_trip(words: Seq<u64>, data_type: DataType, order: Endianness)
    ensures
        words_bytes(words, data_type.spec_byte_size(), order).len() == words.len()
            * data_type.spec_byte_size(),
        forall|i: int|
            0 <= i < words.len() ==> word_value(
                #[trigger] element_bytes(
                    words_bytes(words, data_type.spec_byte_size(), order),
                    data_type.spec_byte_size(),
                    i,
                ),
                order,
            ) == (words[i] as nat) % pow256(data_type.spec_byte_size()),
{
    let width = data_type.spec_byte_size();
    lemma_words_bytes_elements(words, width, order);
    assert forall|i: int| 0 <= i < words.len() implies word_value(
        #[trigger] element_bytes(words_bytes(words, width, order), width, i),
        order,
    ) == (words[i] as nat) % pow256(width) by {
        lemma_word_bytes_value(words[i] as nat, width, order);
    }
}

} // verus!
