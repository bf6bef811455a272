//! Character-sequence helpers shared by the emission specifications: decimal
//! rendering of integers, rendering of normalized values with one decimal
//! place, and small sequence lemmas.

use crate::values::NormalizedValue;
use vstd::prelude::*;

verus! {

/// Concatenation of character sequences is associative; broadcast so that
/// emission contracts written with `+` compose without manual reassociation.
pub broadcast proof fn lemma_add_assoc<A>(a: Seq<A>, b: Seq<A>, c: Seq<A>)
    ensures
        #[trigger] ((a + b) + c) == a + (b + c),
{
    assert((a + b) + c =~= a + (b + c));
}

/// The character for one decimal digit.
pub open spec fn spec_digit(d: nat) -> char {
    if d == 0 {
        '0'
    } else if d == 1 {
        '1'
    } else if d == 2 {
        '2'
    } else if d == 3 {
        '3'
    } else if d == 4 {
        '4'
    } else if d == 5 {
        '5'
    } else if d == 6 {
        '6'
    } else if d == 7 {
        '7'
    } else if d == 8 {
        '8'
    } else {
        '9'
    }
}

/// The decimal rendering of a natural number, most significant digit first.
pub open spec fn spec_dec(n: nat) -> Seq<char>
    decreases n,
{
    if n < 10 {
        seq![spec_digit(n)]
    } else {
        spec_dec(n / 10).push(spec_digit(n % 10))
    }
}

/// One decimal digit as a string slice.
fn digit_str(d: usize) -> (r: &'static str)
    requires
        d < 10,
    ensures
        r@ == seq![spec_digit(d as nat)],
{
    proof {
        reveal_strlit("0");
        reveal_strlit("1");
        reveal_strlit("2");
        reveal_strlit("3");
        reveal_strlit("4");
        reveal_strlit("5");
        reveal_strlit("6");
        reveal_strlit("7");
        reveal_strlit("8");
        reveal_strlit("9");
    }
    if d == 0 {
        proof { assert("0"@ =~= seq![spec_digit(0)]); }
        "0"
    } else if d == 1 {
        proof { assert("1"@ =~= seq![spec_digit(1)]); }
        "1"
    } else if d == 2 {
        proof { assert("2"@ =~= seq![spec_digit(2)]); }
        "2"
    } else if d == 3 {
        proof { assert("3"@ =~= seq![spec_digit(3)]); }
        "3"
    } else if d == 4 {
        proof { assert("4"@ =~= seq![spec_digit(4)]); }
        "4"
    } else if d == 5 {
        proof { assert("5"@ =~= seq![spec_digit(5)]); }
        "5"
    } else if d == 6 {
        proof { assert("6"@ =~= seq![spec_digit(6)]); }
        "6"
    } else if d == 7 {
        proof { assert("7"@ =~= seq![spec_digit(7)]); }
        "7"
    } else if d == 8 {
        proof { assert("8"@ =~= seq![spec_digit(8)]); }
        "8"
    } else {
        proof { assert("9"@ =~= seq![spec_digit(9)]); }
        "9"
    }
}

/// Renders a machine integer in decimal.
pub fn usize_to_string(n: usize) -> (r: String)
    ensures
        r@ == spec_dec(n as nat),
    decreases n,
{
    if n < 10 {
        String::from_str(digit_str(n))
    } else {
        let mut s = usize_to_string(n / 10);
        s.append(digit_str(n % 10));
        s
    }
}

/// The text of a normalized value on the percentage scale with one decimal
/// place (`0.0` through `100.0`): a per-mille value is exactly a whole
/// number of tenths of a percent, so the rendering is lossless.
pub open spec fn spec_value_text(permille: nat) -> Seq<char>
    recommends
        permille <= 1000,
{
    spec_dec(permille / 10) + seq!['.', spec_digit(permille % 10)]
}

/// Renders a normalized value as a percentage with one decimal place.
pub fn value_text(v: &NormalizedValue) -> (r: String)
    ensures
        r@ == spec_value_text(v.spec_get() as nat),
{
    let permille = v.get();
    let mut s = usize_to_string((permille / 10) as usize);
    s.append(".");
    s.append(digit_str((permille % 10) as usize));
    proof {
        reveal_strlit(".");
        assert(s@ =~= spec_value_text(v.spec_get() as nat));
    }
    s
}


/// Lexicographic comparison of two character sequences from position `i` on,
/// by code point; a proper prefix precedes its extensions.
pub open spec fn spec_lex_lt_from(a: Seq<char>, b: Seq<char>, i: int) -> bool
    decreases a.len() - i,
{
    if i < 0 || i >= a.len() {
        i < b.len()
    } else if i >= b.len() {
        false
    } else if a[i] != b[i] {
        (a[i] as u32) < (b[i] as u32)
    } else {
        spec_lex_lt_from(a, b, i + 1)
    }
}

/// Strict lexicographic order on character sequences.
pub open spec fn spec_lex_lt(a: Seq<char>, b: Seq<char>) -> bool {
    spec_lex_lt_from(a, b, 0)
}

/// Compares two strings in lexicographic order by code point.
#[verifier::loop_isolation(false)]
pub fn str_lt(a: &str, b: &str) -> (r: bool)
    ensures
        r == spec_lex_lt(a@, b@),
{
    let alen = a.unicode_len();
    let blen = b.unicode_len();
    let mut i: usize = 0;
    while i < alen && i < blen
        invariant
            i <= alen,
            i <= blen,
            spec_lex_lt_from(a@, b@, 0) == spec_lex_lt_from(a@, b@, i as int),
            forall|j: int| 0 <= j < i ==> a@[j] == b@[j],
        decreases alen - i,
    {
        let ca = a.get_char(i);
        let cb = b.get_char(i);
        if ca as u32 != cb as u32 {
            return (ca as u32) < (cb as u32);
        }
        proof {
            assert(a@[i as int] == b@[i as int]);
        }
        i = i + 1;
    }
    i < blen
}

/// Inserts a string into a sequence sorted ascending: before the first
/// element it does not strictly exceed.
pub open spec fn spec_insert_sorted(x: String, s: Seq<String>) -> Seq<String>
    decreases s.len(),
{
    if s.len() == 0 {
        seq![x]
    } else if !spec_lex_lt(s[0]@, x@) {
        seq![x] + s
    } else {
        seq![s[0]] + spec_insert_sorted(x, s.drop_first())
    }
}

/// Sorts a sequence of strings ascending by insertion.
pub open spec fn spec_sort_strings(s: Seq<String>) -> Seq<String>
    decreases s.len(),
{
    if s.len() == 0 {
        s
    } else {
        spec_insert_sorted(s[0], spec_sort_strings(s.drop_first()))
    }
}

/// Inserting at the first position whose element does not precede `x` is
/// what `spec_insert_sorted` does.
proof fn lemma_insert_at(x: String, s: Seq<String>, j: int)
    requires
        0 <= j <= s.len(),
        forall|k: int| 0 <= k < j ==> spec_lex_lt((#[trigger] s[k])@, x@),
        j < s.len() ==> !spec_lex_lt(s[j]@, x@),
    ensures
        spec_insert_sorted(x, s) == s.take(j) + seq![x] + s.skip(j),
    decreases j,
{
    if s.len() == 0 {
        assert(spec_insert_sorted(x, s) =~= s.take(0) + seq![x] + s.skip(0));
    } else if j == 0 {
        assert(spec_insert_sorted(x, s) =~= s.take(0) + seq![x] + s.skip(0));
    } else {
        assert(spec_lex_lt(s[0]@, x@));
        assert(forall|k: int| 0 <= k < j - 1 ==> spec_lex_lt((#[trigger] s.drop_first()[k])@, x@));
        lemma_insert_at(x, s.drop_first(), j - 1);
        assert(seq![s[0]] + (s.drop_first().take(j - 1) + seq![x] + s.drop_first().skip(j - 1))
            =~= s.take(j) + seq![x] + s.skip(j));
    }
}

/// Inserts a string into a vector sorted ascending.
#[verifier::loop_isolation(false)]
fn insert_sorted(x: String, sorted: Vec<String>) -> (r: Vec<String>)
    ensures
        r@ == spec_insert_sorted(x, sorted@),
{
    let n = sorted.len();
    let mut j: usize = 0;
    while j < n && str_lt(sorted[j].as_str(), x.as_str())
        invariant
            j <= n,
            forall|k: int| 0 <= k < j ==> spec_lex_lt((#[trigger] sorted@[k])@, x@),
        decreases n - j,
    {
        j = j + 1;
    }
    proof {
        lemma_insert_at(x, sorted@, j as int);
    }
    let ghost old_sorted = sorted@;
    let mut r = sorted;
    r.insert(j, x);
    proof {
        assert(r@ =~= old_sorted.take(j as int) + seq![x] + old_sorted.skip(j as int));
    }
    r
}

/// Sorts a vector of strings ascending by code point.
#[verifier::loop_isolation(false)]
pub fn sort_strings(v: &Vec<String>) -> (r: Vec<String>)
    ensures
        r@ == spec_sort_strings(v@),

{
    let n = v.len();
    let mut i: usize = n;
    let mut r: Vec<String> = Vec::new();
    while i > 0
        invariant
            i <= n,
            n == v@.len(),
            r@ == spec_sort_strings(v@.skip(i as int)),
        decreases i,
    {
        i = i - 1;
        let x = v[i].clone();
        r = insert_sorted(x, r);
        proof {
            assert(v@.skip(i as int).drop_first() =~= v@.skip(i as int + 1));
            assert(v@.skip(i as int)[0] == v@[i as int]);
        }
    }
    proof {
        assert(v@.skip(0) =~= v@);
    }
    r
}

/// Removes consecutive equal strings, keeping the first of each run, from
/// position `i` on.
pub open spec fn spec_dedup_from(s: Seq<String>, i: int) -> Seq<String>
    decreases s.len() - i,
{
    if i < 0 || i >= s.len() {
        Seq::empty()
    } else if i > 0 && s[i]@ == s[i - 1]@ {
        spec_dedup_from(s, i + 1)
    } else {
        seq![s[i]] + spec_dedup_from(s, i + 1)
    }
}

/// Removes consecutive equal strings, keeping the first of each run.
pub open spec fn spec_dedup(s: Seq<String>) -> Seq<String> {
    spec_dedup_from(s, 0)
}

/// Removes consecutive equal strings from a vector, keeping the first of
/// each run.
#[verifier::loop_isolation(false)]
pub fn dedup_strings(v: Vec<String>) -> (r: Vec<String>)
    ensures
        r@ == spec_dedup(v@),
{
    let n = v.len();
    let mut r: Vec<String> = Vec::new();
    let mut i: usize = 0;
    while i < n
        invariant
            i <= n,
            r@ + spec_dedup_from(v@, i as int) == spec_dedup(v@),
        decreases n - i,
    {
        if i == 0 || !(v[i] == v[i - 1]) {
            r.push(v[i].clone());
        }
        i = i + 1;
    }
    proof {
        assert(r@ =~= r@ + spec_dedup_from(v@, n as int));
    }
    r
}

} // verus!
