//! File names of the rotating sequence: `{prefix}_{index:03}` followed by
//! `.{suffix}` when the suffix is not empty.

use vstd::prelude::*;
use vstd::string::StringExecFns;

verus! {

/// The decimal digit character for `d` (0 to 9).
pub open spec fn digit_char(d: int) -> char {
    if d == 0 { '0' }
    else if d == 1 { '1' }
    else if d == 2 { '2' }
    else if d == 3 { '3' }
    else if d == 4 { '4' }
    else if d == 5 { '5' }
    else if d == 6 { '6' }
    else if d == 7 { '7' }
    else if d == 8 { '8' }
    else { '9' }
}

/// The decimal digits of `n`, most significant first, without leading zeros.
pub open spec fn decimal(n: nat) -> Seq<char>
    decreases n,
{
    if n < 10 {
        seq![digit_char(n as int)]
    } else {
        decimal(n / 10).push(digit_char((n % 10) as int))
    }
}

/// `digits` with zeros in front until it is at least `width` long.
pub open spec fn zero_padded(digits: Seq<char>, width: nat) -> Seq<char> {
    if digits.len() < width {
        Seq::new((width - digits.len()) as nat, |_i: int| '0') + digits
    } else {
        digits
    }
}

/// The index as it stands in a file name: at least three characters, zeros
/// after the sign, the sign counted in the width.
pub open spec fn index_text(i: int) -> Seq<char> {
    if i >= 0 {
        zero_padded(decimal(i as nat), 3)
    } else {
        seq!['-'] + zero_padded(decimal((-i) as nat), 2)
    }
}

/// The name of the file with sequence index `i`.
pub open spec fn file_name(prefix: Seq<char>, suffix: Seq<char>, i: int) -> Seq<char> {
    prefix + seq!['_'] + index_text(i) + if suffix.len() == 0 {
        Seq::<char>::empty()
    } else {
        seq!['.'] + suffix
    }
}

proof fn lemma_decimal_len(n: nat)
    ensures
        n < 10 ==> decimal(n).len() == 1,
        10 <= n < 100 ==> decimal(n).len() == 2,
        n >= 100 ==> decimal(n).len() >= 3,
    decreases n,
{
    if n >= 10 {
        lemma_decimal_len(n / 10);
    }
}

proof fn lemma_decimal_lead(n: nat)
    ensures
        decimal(n).len() >= 1,
        n > 0 ==> decimal(n)[0] != '0',
        forall|k: int| 0 <= k < decimal(n).len() ==> decimal(n)[k] != '-',
    decreases n,
{
    if n >= 10 {
        lemma_decimal_lead(n / 10);
        assert forall|k: int| 0 <= k < decimal(n).len() implies decimal(n)[k] != '-' by {
            if k < decimal(n).len() - 1 {
                assert(decimal(n)[k] == decimal(n / 10)[k]);
            }
        }
    }
}

proof fn lemma_decimal_injective(n: nat, m: nat)
    requires
        decimal(n) == decimal(m),
    ensures
        n == m,
    decreases n,
{
    lemma_decimal_len(n);
    lemma_decimal_len(m);
    if n >= 10 && m >= 10 {
        assert(decimal(n).drop_last() == decimal(n / 10));
        assert(decimal(m).drop_last() == decimal(m / 10));
        lemma_decimal_injective(n / 10, m / 10);
        assert(decimal(n).last() == digit_char((n % 10) as int));
        assert(decimal(m).last() == digit_char((m % 10) as int));
    } else if n < 10 && m < 10 {
        assert(decimal(n)[0] == digit_char(n as int));
        assert(decimal(m)[0] == digit_char(m as int));
    }
}

proof fn lemma_zero_padded_injective(n: nat, m: nat, width: nat)
    requires
        zero_padded(decimal(n), width) == zero_padded(decimal(m), width),
    ensures
        n == m,
{
    let a = decimal(n);
    let b = decimal(m);
    lemma_decimal_lead(n);
    lemma_decimal_lead(m);
    lemma_decimal_len(n);
    lemma_decimal_len(m);
    let pa = zero_padded(a, width);
    if a.len() == b.len() {
        assert(a =~= pa.subrange(pa.len() as int - a.len() as int, pa.len() as int));
        assert(b =~= pa.subrange(pa.len() as int - b.len() as int, pa.len() as int));
        lemma_decimal_injective(n, m);
    } else if a.len() < b.len() {
        assert(pa[pa.len() - b.len()] == b[0]);
        assert(pa[pa.len() - b.len()] == '0');
    } else {
        assert(pa[pa.len() - a.len()] == a[0]);
        assert(pa[pa.len() - a.len()] == '0');
    }
}

proof fn lemma_index_text_injective(i: int, j: int)
    requires
        index_text(i) == index_text(j),
    ensures
        i == j,
{
    if i >= 0 && j >= 0 {
        lemma_zero_padded_injective(i as nat, j as nat, 3);
    } else if i < 0 && j < 0 {
        assert(index_text(i).drop_first() =~= zero_padded(decimal((-i) as nat), 2));
        assert(index_text(j).drop_first() =~= zero_padded(decimal((-j) as nat), 2));
        lemma_zero_padded_injective((-i) as nat, (-j) as nat, 2);
    } else {
        let k = if i >= 0 { i } else { j };
        lemma_decimal_lead(k as nat);
        assert(index_text(k)[0] != '-') by {
            let d = decimal(k as nat);
            if d.len() < 3 {
                assert(index_text(k)[0] == '0');
            } else {
                assert(index_text(k)[0] == d[0]);
            }
        }
    }
}

/// Each index of the sequence has a file name of its own, so deleting the
/// file of one index never touches the file of another.
pub proof fn lemma_file_name_distinct(prefix: Seq<char>, suffix: Seq<char>, i: int, j: int)
    requires
        i != j,
    ensures
        file_name(prefix, suffix, i) != file_name(prefix, suffix, j),
{
    if file_name(prefix, suffix, i) == file_name(prefix, suffix, j) {
        let tail = if suffix.len() == 0 {
            Seq::<char>::empty()
        } else {
            seq!['.'] + suffix
        };
        let f = file_name(prefix, suffix, i);
        let lo = prefix.len() + 1int;
        assert(index_text(i) =~= f.subrange(lo, f.len() - tail.len()));
        assert(index_text(j) =~= f.subrange(lo, f.len() - tail.len()));
        lemma_index_text_injective(i, j);
    }
}

fn digit_str(d: u64) -> (r: &'static str)
    requires
        d < 10,
    ensures
        r@ == seq![digit_char(d as int)],
{
    proof {
        reveal_strlit("0");
        reveal_strlit("1");
        reveal_strlit("2");
        reveal_strlit("3");
        reveal_strlit("4");
        reveal_strlit("5");
        reveal_strlit("6");
        reveal_strlit("7");
        reveal_strlit("8");
        reveal_strlit("9");
    }
    if d == 0 { "0" }
    else if d == 1 { "1" }
    else if d == 2 { "2" }
    else if d == 3 { "3" }
    else if d == 4 { "4" }
    else if d == 5 { "5" }
    else if d == 6 { "6" }
    else if d == 7 { "7" }
    else if d == 8 { "8" }
    else { "9" }
}

fn push_decimal(s: &mut String, n: u64)
    ensures
        final(s)@ == old(s)@ + decimal(n as nat),
    decreases n,
{
    if n >= 10 {
        push_decimal(s, n / 10);
    }
    s.append(digit_str(n % 10));
    proof {
        assert(final(s)@ =~= old(s)@ + decimal(n as nat));
    }
}

fn push_zero_padded(s: &mut String, n: u64, width: u64)
    requires
        2 <= width <= 3,
    ensures
        final(s)@ == old(s)@ + zero_padded(decimal(n as nat), width as nat),
{
    proof {
        lemma_decimal_len(n as nat);
        reveal_strlit("0");
        reveal_strlit("00");
    }
    if width == 3 && n < 10 {
        s.append("00");
    } else if n < 10 || (width == 3 && n < 100) {
        s.append("0");
    }
    push_decimal(s, n);
    assert(final(s)@ =~= old(s)@ + zero_padded(decimal(n as nat), width as nat));
}

/// Formats the name of the file with sequence index `index`.
pub fn generate_file_name(prefix: &str, suffix: &str, index: i64) -> (r: String)
    ensures
        r@ == file_name(prefix@, suffix@, index as int),
{
    let mut s = prefix.to_owned();
    proof {
        reveal_strlit("_");
        reveal_strlit("-");
        reveal_strlit(".");
    }
    s.append("_");
    if index >= 0 {
        push_zero_padded(&mut s, index as u64, 3);
    } else {
        s.append("-");
        let magnitude: u64 = (-(index + 1)) as u64 + 1;
        push_zero_padded(&mut s, magnitude, 2);
    }
    if !suffix.is_empty() {
        s.append(".");
        s.append(suffix);
    }
    assert(s@ =~= file_name(prefix@, suffix@, index as int));
    s
}

/// The file work of one step along the sequence: delete `evict` if it
/// exists (its absence is no error), then create `open`, truncating it.
pub struct FileTurn {
    pub evict: String,
    pub open: String,
}

/// The index whose file leaves the retained window when `index` is opened.
pub open spec fn evict_index(index: int, file_count: int) -> int {
    index - file_count
}

/// Takes the next index of the sequence: names the file to open for it and
/// the file that leaves the retained window, and advances `index`.
pub fn make_new_file_name(prefix: &str, suffix: &str, file_count: u32, index: &mut i64) -> (turn:
    FileTurn)
    requires
        0 <= *old(index) < i64::MAX,
    ensures
        *final(index) == *old(index) + 1,
        turn.open@ == file_name(prefix@, suffix@, *old(index) as int),
        turn.evict@ == file_name(prefix@, suffix@, evict_index(*old(index) as int, file_count as int)),
{
    let i = *index;
    *index = i + 1;
    let evict = generate_file_name(prefix, suffix, i - file_count as i64);
    let open = generate_file_name(prefix, suffix, i);
    FileTurn { evict, open }
}

} // verus!
