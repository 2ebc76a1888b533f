//! Lengths of text in UTF-8 bytes, which is how `str::len` measures and how
//! `str` slicing counts positions.
use vstd::prelude::*;
use vstd::utf8::*;

verus! {

/// The number of bytes UTF-8 uses for `c`.
pub open spec fn char_width(c: char) -> nat {
    let u = c as u32;
    if u < 0x80 {
        1
    } else if u < 0x800 {
        2
    } else if u < 0x10000 {
        3
    } else {
        4
    }
}

/// The number of bytes of the UTF-8 encoding of `s`.
pub open spec fn utf8_len(s: Seq<char>) -> nat
    decreases s.len(),
{
    if s.len() == 0 {
        0
    } else {
        char_width(s[0]) + utf8_len(s.drop_first())
    }
}

/// `str::len` of a string whose characters are `s`.
pub open spec fn byte_len(s: Seq<char>) -> usize {
    utf8_len(s) as usize
}

/// Byte lengths add up over concatenation.
pub proof fn lemma_utf8_len_concat(a: Seq<char>, b: Seq<char>)
    ensures
        utf8_len(a + b) == utf8_len(a) + utf8_len(b),
    decreases a.len(),
{
    if a.len() == 0 {
        assert(a + b =~= b);
    } else {
        lemma_utf8_len_concat(a.drop_first(), b);
        assert((a + b).drop_first() =~= a.drop_first() + b);
    }
}

/// One more character adds its width.
pub proof fn lemma_utf8_len_take_step(s: Seq<char>, k: int)
    requires
        0 <= k < s.len(),
    ensures
        utf8_len(s.take(k + 1)) == utf8_len(s.take(k)) + char_width(s[k]),
{
    lemma_utf8_len_concat(s.take(k), seq![s[k]]);
    assert(s.take(k + 1) =~= s.take(k) + seq![s[k]]);
    assert(seq![s[k]].drop_first() =~= Seq::<char>::empty());
    assert(utf8_len(seq![s[k]]) == char_width(s[k]) + utf8_len(Seq::<char>::empty()));
}

/// Longer prefixes take strictly more bytes.
pub proof fn lemma_utf8_len_take_strict(s: Seq<char>, j: int, k: int)
    requires
        0 <= j < k <= s.len(),
    ensures
        utf8_len(s.take(j)) < utf8_len(s.take(k)),
    decreases k - j,
{
    lemma_utf8_len_take_step(s, k - 1);
    if j < k - 1 {
        lemma_utf8_len_take_strict(s, j, k - 1);
    }
}

/// The UTF-8 encoding that vstd gives `str` has exactly `utf8_len` bytes.
pub proof fn lemma_encode_utf8_len(s: Seq<char>)
    ensures
        encode_utf8(s).len() == utf8_len(s),
    decreases s.len(),
{
    if s.len() > 0 {
        lemma_encode_utf8_len(s.drop_first());
        char_is_scalar(s[0]);
        let u = s[0] as u32;
        assert(is_scalar(u));
        assert(encode_scalar(u).len() == char_width(s[0]));
    }
}

/// The byte length of a `str`, by `str::len`.
pub fn str_byte_len(s: &str) -> (n: usize)
    ensures
        n == byte_len(s@),
{
    proof {
        lemma_encode_utf8_len(s@);
    }
    s.len()
}

/// The number of UTF-8 bytes of `c`.
pub fn char_width_exec(c: char) -> (w: usize)
    ensures
        w == char_width(c),
{
    let u = c as u32;
    if u < 0x80 {
        1
    } else if u < 0x800 {
        2
    } else if u < 0x10000 {
        3
    } else {
        4
    }
}

/// The number of characters of `s` that fill exactly the first `b` bytes, if
/// byte `b` falls on a character boundary (`str::is_char_boundary`).
pub open spec fn index_at_byte(s: Seq<char>, b: nat) -> Option<int> {
    if exists|k: int| 0 <= k <= s.len() && utf8_len(s.take(k)) == b {
        Some(choose|k: int| 0 <= k <= s.len() && utf8_len(s.take(k)) == b)
    } else {
        None
    }
}

/// At most one prefix has a given byte length.
pub proof fn lemma_index_at_byte_unique(s: Seq<char>, b: nat, k: int)
    requires
        0 <= k <= s.len(),
        utf8_len(s.take(k)) == b,
    ensures
        index_at_byte(s, b) == Some(k),
{
    let j = choose|j: int| 0 <= j <= s.len() && utf8_len(s.take(j)) == b;
    if j < k {
        lemma_utf8_len_take_strict(s, j, k);
    } else if k < j {
        lemma_utf8_len_take_strict(s, k, j);
    }
}

/// Finds the character index at byte offset `b` of `s`.
pub fn index_at_byte_exec(s: &[char], b: usize) -> (r: Option<usize>)
    ensures
        r matches Some(k) ==> index_at_byte(s@, b as nat) == Some(k as int),
        r is None ==> index_at_byte(s@, b as nat) is None,
{
    let mut acc: u128 = 0;
    let mut k: usize = 0;
    assert(s@.take(0) =~= Seq::<char>::empty());
    while k < s.len() && acc < b as u128
        invariant
            k <= s@.len(),
            acc == utf8_len(s@.take(k as int)),
            forall|j: int| 0 <= j < k ==> utf8_len(s@.take(j)) < b,
        decreases s@.len() - k,
    {
        proof {
            lemma_utf8_len_take_step(s@, k as int);
        }
        acc = acc + char_width_exec(s[k]) as u128;
        k = k + 1;
    }
    if acc == b as u128 {
        proof {
            lemma_index_at_byte_unique(s@, b as nat, k as int);
        }
        Some(k)
    } else {
        proof {
            assert forall|j: int| 0 <= j <= s@.len() implies utf8_len(s@.take(j)) != b by {
                if j > k {
                    lemma_utf8_len_take_strict(s@, k as int, j);
                }
            }
        }
        None
    }
}

} // verus!
