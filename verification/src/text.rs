use vstd::prelude::*;
use vstd::string::StrSliceExecFns;

verus! {

/// The characters of each string of `s`.
pub open spec fn strings_view(s: Seq<String>) -> Seq<Seq<char>> {
    s.map_values(|x: String| x@)
}

/// `items` one after the other, with `sep` between each two of them.
pub open spec fn join_spec(items: Seq<Seq<char>>, sep: Seq<char>) -> Seq<char>
    decreases items.len(),
{
    if items.len() == 0 {
        Seq::empty()
    } else if items.len() == 1 {
        items[0]
    } else {
        join_spec(items.drop_last(), sep) + sep + items.last()
    }
}

/// Joins `list` with `sep` between each two of its strings.
pub fn join(list: &[String], sep: &str) -> (r: String)
    ensures
        r@ == join_spec(strings_view(list@), sep@),
{
    let mut r = String::new();
    let ghost items = strings_view(list@);
    let mut i: usize = 0;
    while i < list.len()
        invariant
            i <= list@.len(),
            items == strings_view(list@),
            r@ == join_spec(items.take(i as int), sep@),
        decreases list@.len() - i,
    {
        proof {
            assert(items.take(i + 1).drop_last() =~= items.take(i as int));
            assert(items.take(i + 1).last() == list@[i as int]@);
        }
        if i == 0 {
            assert(items.take(1).len() == 1);
            r.append(list[i].as_str());
        } else {
            r.append(sep);
            r.append(list[i].as_str());
        }
        i = i + 1;
    }
    assert(items.take(i as int) =~= items);
    r
}

/// The character of the decimal digit `d`.
pub open spec fn digit_char(d: nat) -> char {
    if d == 0 {
        '0'
    } else if d == 1 {
        '1'
    } else if d == 2 {
        '2'
    } else if d == 3 {
        '3'
    } else if d == 4 {
        '4'
    } else if d == 5 {
        '5'
    } else if d == 6 {
        '6'
    } else if d == 7 {
        '7'
    } else if d == 8 {
        '8'
    } else {
        '9'
    }
}


/// The decimal representation of `n`, without leading zeros.
pub open spec fn decimal(n: nat) -> Seq<char>
    decreases n,
{
    if n < 10 {
        seq![digit_char(n)]
    } else {
        decimal(n / 10).push(digit_char(n % 10))
    }
}

/// Different numbers have different decimal representations.
pub proof fn lemma_decimal_injective(a: nat, b: nat)
    ensures
        decimal(a) == decimal(b) ==> a == b,
    decreases a,
{
    if decimal(a) == decimal(b) {
        if a < 10 && b < 10 {
            assert(decimal(a)[0] == digit_char(a));
            assert(decimal(b)[0] == digit_char(b));
        } else if a < 10 {
            lemma_decimal_not_empty(b / 10);
            assert(decimal(b).len() == decimal(b / 10).len() + 1);
        } else if b < 10 {
            lemma_decimal_not_empty(a / 10);
            assert(decimal(a).len() == decimal(a / 10).len() + 1);
        } else {
            assert(decimal(a).drop_last() =~= decimal(a / 10));
            assert(decimal(b).drop_last() =~= decimal(b / 10));
            assert(decimal(a).last() == digit_char(a % 10));
            assert(decimal(b).last() == digit_char(b % 10));
            lemma_decimal_injective(a / 10, b / 10);
        }
    }
}

/// The number that the decimal digits `s` stand for, read from the left.
pub open spec fn digits_value(s: Seq<char>) -> int
    decreases s.len(),
{
    if s.len() == 0 {
        0
    } else {
        digits_value(s.drop_last()) * 10 + (s.last() as int - '0' as int)
    }
}

/// `decimal(n)` is the way `n` is written in base ten: decimal digits only,
/// no leading zero, and read back it gives `n`.
pub proof fn lemma_decimal_reads_back(n: nat)
    ensures
        digits_value(decimal(n)) == n,
        decimal(n).len() > 0,
        forall|i: int| 0 <= i < decimal(n).len() ==> '0' <= #[trigger] decimal(n)[i] <= '9',
        n > 0 ==> decimal(n)[0] != '0',
    decreases n,
{
    let d = digit_char(n % 10);
    assert(d as int - '0' as int == n % 10);
    if n < 10 {
        assert(decimal(n).drop_last() =~= Seq::<char>::empty());
        assert(n % 10 == n);
        assert(decimal(n).last() == d);
        assert(digits_value(decimal(n).drop_last()) == 0);
        assert(digits_value(decimal(n)) == n);
    } else {
        lemma_decimal_reads_back(n / 10);
        assert(decimal(n).drop_last() =~= decimal(n / 10));
        assert(decimal(n)[0] == decimal(n / 10)[0]);
        assert forall|i: int| 0 <= i < decimal(n).len() implies '0' <= #[trigger] decimal(n)[i]
            <= '9' by {
            if i < decimal(n / 10).len() {
                assert(decimal(n)[i] == decimal(n / 10)[i]);
            }
        }
        assert(decimal(n).last() == d);
        assert(digits_value(decimal(n)) == digits_value(decimal(n / 10)) * 10 + (d as int
            - '0' as int));
        assert((n / 10) * 10 + n % 10 == n) by (nonlinear_arith);
        assert(digits_value(decimal(n)) == n);
    }
}

proof fn lemma_decimal_not_empty(n: nat)
    ensures
        decimal(n).len() > 0,
    decreases n,
{
    if n >= 10 {
        lemma_decimal_not_empty(n / 10);
    }
}

fn digit_str(d: u64) -> (r: &'static str)
    requires
        d < 10,
    ensures
        r@ == seq![digit_char(d as nat)],
{
    proof {
        reveal_strlit("0");
        reveal_strlit("1");
        reveal_strlit("2");
        reveal_strlit("3");
        reveal_strlit("4");
        reveal_strlit("5");
        reveal_strlit("6");
        reveal_strlit("7");
        reveal_strlit("8");
        reveal_strlit("9");
    }
    let r = match d {
        0 => "0",
        1 => "1",
        2 => "2",
        3 => "3",
        4 => "4",
        5 => "5",
        6 => "6",
        7 => "7",
        8 => "8",
        _ => "9",
    };
    assert(r@ =~= seq![digit_char(d as nat)]);
    r
}

/// Writes `n` in decimal, as `Display` does for integers.
pub fn decimal_string(n: u64) -> (r: String)
    ensures
        r@ == decimal(n as nat),
{
    let mut m = n;
    let mut digits: Vec<u64> = Vec::new();
    let ghost mut tail: Seq<char> = Seq::empty();
    while m >= 10
        invariant
            decimal(n as nat) == decimal(m as nat) + tail,
            tail.len() == digits@.len(),
            forall|k: int| 0 <= k < digits@.len() ==> #[trigger] digits@[k] < 10,
            forall|k: int|
                0 <= k < digits@.len() ==> #[trigger] tail[k] == digit_char(
                    digits@[digits@.len() - 1 - k] as nat,
                ),
        decreases m,
    {
        let d = m % 10;
        let ghost old_tail = tail;
        proof {
            let c = digit_char(d as nat);
            assert(decimal(m as nat) == decimal((m / 10) as nat).push(c));
            assert(decimal((m / 10) as nat).push(c) + tail =~= decimal((m / 10) as nat) + (seq![c]
                + tail));
            tail = seq![c] + tail;
        }
        digits.push(d);
        m = m / 10;
        assert forall|k: int| 0 <= k < digits@.len() implies #[trigger] tail[k] == digit_char(
            digits@[digits@.len() - 1 - k] as nat,
        ) by {
            if k > 0 {
                assert(tail[k] == old_tail[k - 1]);
            }
        }
    }
    let mut r = String::new();
    r.append(digit_str(m));
    let mut j: usize = digits.len();
    while j > 0
        invariant
            j <= digits@.len(),
            tail.len() == digits@.len(),
            forall|k: int| 0 <= k < digits@.len() ==> #[trigger] digits@[k] < 10,
            forall|k: int|
                0 <= k < digits@.len() ==> #[trigger] tail[k] == digit_char(
                    digits@[digits@.len() - 1 - k] as nat,
                ),
            r@ == decimal(m as nat) + tail.take(digits@.len() - j),
            decimal(n as nat) == decimal(m as nat) + tail,
        decreases j,
    {
        j = j - 1;
        let ghost k = digits@.len() - 1 - j;
        assert(tail.take(k + 1) =~= tail.take(k).push(tail[k]));
        assert(tail[k] == digit_char(digits@[j as int] as nat));
        r.append(digit_str(digits[j]));
    }
    assert(tail.take(tail.len() as int) =~= tail);
    r
}

/// `s` ends with `suffix`.
pub open spec fn ends_with_spec(s: Seq<char>, suffix: Seq<char>) -> bool {
    suffix.len() <= s.len() && s.subrange(s.len() - suffix.len(), s.len() as int) == suffix
}

/// Returns true if `s` ends with `suffix`, as `str::ends_with` does for a
/// string pattern.
pub fn ends_with(s: &str, suffix: &str) -> (r: bool)
    ensures
        r == ends_with_spec(s@, suffix@),
{
    let n = s.unicode_len();
    let m = suffix.unicode_len();
    if m > n {
        return false;
    }
    let offset = n - m;
    let mut i: usize = 0;
    while i < m
        invariant
            n == s@.len(),
            m == suffix@.len(),
            offset == n - m,
            i <= m,
            forall|k: int| 0 <= k < i ==> s@[offset + k] == suffix@[k],
        decreases m - i,
    {
        if s.get_char(offset + i) != suffix.get_char(i) {
            assert(s@.subrange(offset as int, n as int)[i as int] != suffix@[i as int]);
            return false;
        }
        i = i + 1;
    }
    assert(s@.subrange(offset as int, n as int) =~= suffix@);
    true
}

/// Returns true if `a` and `b` hold the same characters.
pub fn str_equal(a: &str, b: &str) -> (r: bool)
    ensures
        r == (a@ == b@),
{
    let n = a.unicode_len();
    if n != b.unicode_len() {
        return false;
    }
    let mut i: usize = 0;
    while i < n
        invariant
            n == a@.len(),
            n == b@.len(),
            i <= n,
            forall|k: int| 0 <= k < i ==> a@[k] == b@[k],
        decreases n - i,
    {
        if a.get_char(i) != b.get_char(i) {
            return false;
        }
        i = i + 1;
    }
    assert(a@ =~= b@);
    true
}

/// The upper-case form of `s`, as Rust's `str::to_uppercase` gives it.
pub uninterp spec fn uppercase(s: Seq<char>) -> Seq<char>;

/// Calls `str::to_uppercase`, which maps each character to its upper-case
/// form by Unicode's rules. The result is a function of `s` alone and is
/// named `uppercase`; nothing more is claimed of it here.
#[verifier::external_body]
pub(crate) fn to_uppercase(s: &str) -> (r: String)
    ensures
        r@ == uppercase(s@),
{
    s.to_uppercase()
}

/// `piece` stands somewhere in `text`.
pub open spec fn holds_text(text: Seq<char>, piece: Seq<char>) -> bool {
    exists|i: int|
        0 <= i && i + piece.len() <= text.len() && #[trigger] text.subrange(i, i + piece.len())
            == piece
}

pub proof fn lemma_holds_between(before: Seq<char>, piece: Seq<char>, after: Seq<char>)
    ensures
        holds_text(before + piece + after, piece),
{
    let text = before + piece + after;
    assert(text.subrange(before.len() as int, (before.len() + piece.len()) as int) =~= piece);
}

pub proof fn lemma_holds_inside(before: Seq<char>, text: Seq<char>, after: Seq<char>, piece: Seq<char>)
    requires
        holds_text(text, piece),
    ensures
        holds_text(before + text + after, piece),
{
    let i = choose|i: int|
        0 <= i && i + piece.len() <= text.len() && #[trigger] text.subrange(i, i + piece.len())
            == piece;
    let whole = before + text + after;
    assert(whole.subrange(before.len() + i, before.len() + i + piece.len()) =~= piece);
}

/// What stands in `text` stands in `before + text`.
pub proof fn lemma_holds_after(before: Seq<char>, text: Seq<char>, piece: Seq<char>)
    requires
        holds_text(text, piece),
    ensures
        holds_text(before + text, piece),
{
    lemma_holds_inside(before, text, Seq::empty(), piece);
    assert(before + text + Seq::<char>::empty() =~= before + text);
}

/// What stands in `text` stands in `text + after`.
pub proof fn lemma_holds_before(text: Seq<char>, after: Seq<char>, piece: Seq<char>)
    requires
        holds_text(text, piece),
    ensures
        holds_text(text + after, piece),
{
    lemma_holds_inside(Seq::empty(), text, after, piece);
    assert(Seq::<char>::empty() + text + after =~= text + after);
}

} // verus!
