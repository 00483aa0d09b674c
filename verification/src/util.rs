//! Small helpers on strings.

use vstd::prelude::*;

verus! {

/// Convenience type to return two possible values.
pub enum Either<L, R> {
    /// `L` return value.
    Left(L),
    /// `R` return value.
    Right(R),
}

/// Compares two string slices character by character.
pub fn str_eq(a: &str, b: &str) -> (r: bool)
    ensures
        r == (a@ == b@),
{
    let n = a.unicode_len();
    let m = b.unicode_len();
    if n != m {
        return false;
    }
    let mut i: usize = 0;
    while i < n
        invariant
            n == a@.len(),
            m == b@.len(),
            n == m,
            i <= n,
            forall|j: int| 0 <= j < i ==> a@[j] == b@[j],
        decreases n - i,
    {
        if a.get_char(i) != b.get_char(i) {
            return false;
        }
        i = i + 1;
    }
    assert(a@ =~= b@);
    true
}

/// The character of a decimal digit.
pub open spec fn digit_char(d: nat) -> char {
    if d == 0 { '0' } else if d == 1 { '1' } else if d == 2 { '2' } else if d == 3 { '3' }
    else if d == 4 { '4' } else if d == 5 { '5' } else if d == 6 { '6' } else if d == 7 { '7' }
    else if d == 8 { '8' } else { '9' }
}

/// Decimal notation of `n`.
pub open spec fn decimal(n: nat) -> Seq<char>
    decreases n,
{
    if n < 10 {
        seq![digit_char(n)]
    } else {
        decimal(n / 10) + seq![digit_char(n % 10)]
    }
}

/// A decimal digit as text.
fn digit_str(d: usize) -> (s: &'static str)
    requires
        d < 10,
    ensures
        s@ == seq![digit_char(d as nat)],
{
    proof {
        reveal_strlit("0");
        reveal_strlit("1");
        reveal_strlit("2");
        reveal_strlit("3");
        reveal_strlit("4");
        reveal_strlit("5");
        reveal_strlit("6");
        reveal_strlit("7");
        reveal_strlit("8");
        reveal_strlit("9");
    }
    match d {
        0 => "0",
        1 => "1",
        2 => "2",
        3 => "3",
        4 => "4",
        5 => "5",
        6 => "6",
        7 => "7",
        8 => "8",
        9 => "9",
        _ => "9",
    }
}

/// Decimal notation of `n`.
pub fn to_decimal(n: usize) -> (s: String)
    ensures
        s@ == decimal(n as nat),
    decreases n,
{
    if n < 10 {
        String::from_str(digit_str(n))
    } else {
        let mut s = to_decimal(n / 10);
        s.append(digit_str(n % 10));
        s
    }
}

/// The texts of `items`, each followed by nothing but `sep` between them.
pub open spec fn join(items: Seq<Seq<char>>, sep: Seq<char>) -> Seq<char>
    decreases items.len(),
{
    if items.len() == 0 {
        seq![]
    } else if items.len() == 1 {
        items[0]
    } else {
        join(items.drop_last(), sep) + sep + items.last()
    }
}

/// Joining empty texts with nothing between them gives nothing.
pub proof fn lemma_join_empty(items: Seq<Seq<char>>)
    requires
        forall|i: int| 0 <= i < items.len() ==> (#[trigger] items[i]).len() == 0,
    ensures
        join(items, seq![]) == Seq::<char>::empty(),
    decreases items.len(),
{
    if items.len() > 1 {
        lemma_join_empty(items.drop_last());
        assert(items.last().len() == 0);
        assert(join(items, seq![]) =~= Seq::<char>::empty());
    } else if items.len() == 1 {
        assert(items[0].len() == 0);
        assert(items[0] =~= Seq::<char>::empty());
    }
}

/// Joining texts with nothing between them puts them one after another.
pub proof fn lemma_join_flatten(items: Seq<Seq<char>>)
    ensures
        join(items, seq![]) == items.flatten(),
    decreases items.len(),
{
    items.lemma_flatten_and_flatten_alt_are_equivalent();
    if items.len() >= 2 {
        lemma_join_flatten(items.drop_last());
        items.drop_last().lemma_flatten_and_flatten_alt_are_equivalent();
        assert(join(items, seq![]) =~= items.drop_last().flatten_alt() + items.last());
    } else if items.len() == 1 {
        assert(items.drop_last().flatten_alt() =~= Seq::<char>::empty());
        assert(items.flatten_alt() =~= items[0]);
    }
}

/// Joins `items` with `sep` between them.
pub fn join_strings(items: &Vec<String>, sep: &str) -> (s: String)
    ensures
        s@ == join(items@.map_values(|x: String| x@), sep@),
{
    let ghost iv = items@.map_values(|x: String| x@);
    let mut s = String::new();
    let mut i: usize = 0;
    assert(iv.take(0) =~= seq![]);
    while i < items.len()
        invariant
            i <= items@.len(),
            iv == items@.map_values(|x: String| x@),
            s@ == join(iv.take(i as int), sep@),
        decreases items.len() - i,
    {
        if i > 0 {
            s.append(sep);
        }
        s.append(items[i].as_str());
        assert(iv.take(i + 1).drop_last() =~= iv.take(i as int));
        if i == 0 {
            assert(iv.take(1) =~= seq![iv[0]]);
        }
        i = i + 1;
    }
    assert(iv.take(items@.len() as int) =~= iv);
    s
}

} // verus!
