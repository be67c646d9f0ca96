use vstd::prelude::*;
use vstd::string::*;

use crate::pattern::views;
use crate::text::{chars_of, ends_with_char, join2};

use core::cmp::Ordering;

verus! {

/// Whether `c` is an ASCII digit.
pub open spec fn is_digit(c: char) -> bool {
    48 <= (c as u32) && (c as u32) <= 57
}

/// The maximal runs of ASCII digits and of other characters that make up
/// `s`, from left to right.
pub open spec fn tokens(s: Seq<char>) -> Seq<Seq<char>>
    decreases s.len(),
{
    if s.len() == 0 {
        seq![]
    } else {
        let t = tokens(s.drop_last());
        let c = s.last();
        if t.len() > 0 && t.last().len() > 0 && is_digit(t.last().last()) == is_digit(c) {
            t.update(t.len() - 1, t.last().push(c))
        } else {
            t.push(seq![c])
        }
    }
}

/// Whether a token is a run of digits.
pub open spec fn is_number_token(t: Seq<char>) -> bool {
    t.len() > 0 && is_digit(t[0])
}

/// The value of a digit.
pub open spec fn digit_value(c: char) -> nat {
    ((c as u32) - 48) as nat
}

/// The integer that a run of decimal digits denotes.
pub open spec fn digits_value(s: Seq<char>) -> nat
    decreases s.len(),
{
    if s.len() == 0 {
        0
    } else {
        digits_value(s.drop_last()) * 10 + digit_value(s.last())
    }
}

/// Three-way comparison of two integers.
pub open spec fn cmp_int(a: int, b: int) -> Ordering {
    if a < b {
        Ordering::Less
    } else if a > b {
        Ordering::Greater
    } else {
        Ordering::Equal
    }
}

/// Lexicographic comparison of two character sequences, by code point.
pub open spec fn lex_cmp(a: Seq<char>, b: Seq<char>) -> Ordering
    decreases a.len(),
{
    if a.len() == 0 && b.len() == 0 {
        Ordering::Equal
    } else if a.len() == 0 {
        Ordering::Less
    } else if b.len() == 0 {
        Ordering::Greater
    } else if (a[0] as u32) < (b[0] as u32) {
        Ordering::Less
    } else if (a[0] as u32) > (b[0] as u32) {
        Ordering::Greater
    } else {
        lex_cmp(a.drop_first(), b.drop_first())
    }
}

/// Comparison of two tokens: digit runs by value, other runs
/// lexicographically, and a digit run before any other run.
pub open spec fn token_cmp(a: Seq<char>, b: Seq<char>) -> Ordering {
    if is_number_token(a) && is_number_token(b) {
        cmp_int(digits_value(a) as int, digits_value(b) as int)
    } else if !is_number_token(a) && !is_number_token(b) {
        lex_cmp(a, b)
    } else if is_number_token(a) {
        Ordering::Less
    } else {
        Ordering::Greater
    }
}

/// Token-by-token comparison; when one list runs out first, it is the smaller.
pub open spec fn tokens_cmp(a: Seq<Seq<char>>, b: Seq<Seq<char>>) -> Ordering
    decreases a.len(),
{
    if a.len() == 0 || b.len() == 0 {
        cmp_int(a.len() as int, b.len() as int)
    } else if token_cmp(a[0], b[0]) != Ordering::Equal {
        token_cmp(a[0], b[0])
    } else {
        tokens_cmp(a.drop_first(), b.drop_first())
    }
}

/// The natural order of two strings.
#[verifier::opaque]
pub open spec fn natural_cmp(a: Seq<char>, b: Seq<char>) -> Ordering {
    tokens_cmp(tokens(a), tokens(b))
}

/// The reverse of an ordering.
pub open spec fn flip(o: Ordering) -> Ordering {
    match o {
        Ordering::Less => Ordering::Greater,
        Ordering::Greater => Ordering::Less,
        Ordering::Equal => Ordering::Equal,
    }
}

/// The sort key of an entry: its relative path, with a `/` appended for a
/// directory.
pub open spec fn sort_key(rel: Seq<char>, is_dir: bool) -> Seq<char> {
    if is_dir && !ends_with_char(rel, '/') {
        rel.push('/')
    } else {
        rel
    }
}

proof fn lemma_lex_flip(a: Seq<char>, b: Seq<char>)
    ensures
        lex_cmp(b, a) == flip(lex_cmp(a, b)),
    decreases a.len(),
{
    if a.len() > 0 && b.len() > 0 && (a[0] as u32) == (b[0] as u32) {
        lemma_lex_flip(a.drop_first(), b.drop_first());
    }
}

proof fn lemma_tokens_flip(a: Seq<Seq<char>>, b: Seq<Seq<char>>)
    ensures
        tokens_cmp(b, a) == flip(tokens_cmp(a, b)),
    decreases a.len(),
{
    if a.len() > 0 && b.len() > 0 {
        lemma_lex_flip(a[0], b[0]);
        lemma_tokens_flip(a.drop_first(), b.drop_first());
    }
}

/// Swapping the arguments of the natural order reverses its result.
pub proof fn lemma_natural_cmp_flip(a: Seq<char>, b: Seq<char>)
    ensures
        natural_cmp(b, a) == flip(natural_cmp(a, b)),
{
    reveal(natural_cmp);
    lemma_tokens_flip(tokens(a), tokens(b));
}

/// Whether `c` is an ASCII digit.
fn char_is_digit(c: char) -> (r: bool)
    ensures
        r == is_digit(c),
{
    let u = c as u32;
    48 <= u && u <= 57
}

/// Whether every character of `s` is an ASCII digit.
pub open spec fn all_digits(s: Seq<char>) -> bool {
    forall|i: int| 0 <= i < s.len() ==> is_digit(s[i])
}

/// Ten to the power `n`.
pub open spec fn pow10(n: nat) -> nat
    decreases n,
{
    if n == 0 {
        1
    } else {
        10 * pow10((n - 1) as nat)
    }
}

proof fn lemma_pow10_mono(a: nat, b: nat)
    requires
        a <= b,
    ensures
        pow10(a) <= pow10(b),
        pow10(a) >= 1,
    decreases b,
{
    if b > a {
        lemma_pow10_mono(a, (b - 1) as nat);
    } else if a > 0 {
        lemma_pow10_mono((a - 1) as nat, (a - 1) as nat);
    }
}

proof fn lemma_value_front(s: Seq<char>)
    requires
        s.len() > 0,
    ensures
        digits_value(s) == digit_value(s[0]) * pow10((s.len() - 1) as nat) + digits_value(
            s.drop_first(),
        ),
    decreases s.len(),
{
    if s.len() == 1 {
        assert(s.drop_first() =~= seq![]);
        assert(s.drop_last() =~= seq![]);
        assert(digits_value(s.drop_last()) == 0);
        assert(digits_value(s.drop_first()) == 0);
        assert(pow10(0) == 1);
        assert(s.last() == s[0]);
        assert(digit_value(s[0]) * 1 == digit_value(s[0]));
        assert(digits_value(s) == digit_value(s[0]));
    } else {
        let m = s.drop_last();
        lemma_value_front(m);
        assert(m.drop_first() =~= s.drop_first().drop_last());
        assert(s.drop_first().last() == s.last());
        assert(m.last() == s[s.len() - 2]);
        assert(digits_value(s) == digits_value(m) * 10 + digit_value(s.last()));
        assert(digits_value(s.drop_first()) == digits_value(m.drop_first()) * 10 + digit_value(
            s.last(),
        ));
        assert(m[0] == s[0]);
        let p = pow10((s.len() - 2) as nat);
        assert(pow10((s.len() - 1) as nat) == 10 * p);
        let d0 = digit_value(s[0]);
        let vm = digits_value(m.drop_first());
        let dl = digit_value(s.last());
        assert((d0 * p + vm) * 10 + dl == d0 * (10 * p) + (vm * 10 + dl)) by (nonlinear_arith);
        assert(digits_value(m) == d0 * p + vm);
    }
}

proof fn lemma_value_bound(s: Seq<char>)
    requires
        all_digits(s),
    ensures
        digits_value(s) < pow10(s.len()),
    decreases s.len(),
{
    if s.len() > 0 {
        let m = s.drop_last();
        lemma_value_bound(m);
        let v = digits_value(m);
        let p = pow10(m.len());
        assert(digit_value(s.last()) <= 9);
        assert(v < p ==> v * 10 + 9 < 10 * p) by (nonlinear_arith);
    }
}

proof fn lemma_value_lower(s: Seq<char>)
    requires
        all_digits(s),
        s.len() > 0,
        digit_value(s[0]) > 0,
    ensures
        digits_value(s) >= pow10((s.len() - 1) as nat),
{
    lemma_value_front(s);
    let d = digit_value(s[0]);
    let p = pow10((s.len() - 1) as nat);
    assert(d >= 1 ==> d * p >= p) by (nonlinear_arith);
}

proof fn lemma_value_same_length(a: Seq<char>, b: Seq<char>)
    requires
        all_digits(a),
        all_digits(b),
        a.len() == b.len(),
    ensures
        cmp_int(digits_value(a) as int, digits_value(b) as int) == lex_cmp(a, b),
    decreases a.len(),
{
    if a.len() > 0 {
        lemma_value_front(a);
        lemma_value_front(b);
        lemma_value_bound(a.drop_first());
        lemma_value_bound(b.drop_first());
        lemma_value_same_length(a.drop_first(), b.drop_first());
        let p = pow10((a.len() - 1) as nat);
        let da = digit_value(a[0]);
        let db = digit_value(b[0]);
        let va = digits_value(a.drop_first());
        let vb = digits_value(b.drop_first());
        assert(da < db && va < p ==> da * p + va < db * p + vb) by (nonlinear_arith);
        assert(db < da && vb < p ==> db * p + vb < da * p + va) by (nonlinear_arith);
    }
}

proof fn lemma_leading_zero(s: Seq<char>)
    requires
        s.len() > 0,
        digit_value(s[0]) == 0,
    ensures
        digits_value(s) == digits_value(s.drop_first()),
{
    lemma_value_front(s);
}

/// A token: non-empty, and all of its characters are digits or none is.
pub open spec fn uniform_token(t: Seq<char>) -> bool {
    t.len() > 0 && forall|j: int| 0 <= j < t.len() ==> is_digit(#[trigger] t[j]) == is_digit(t[0])
}

proof fn lemma_tokens_uniform(s: Seq<char>)
    ensures
        forall|k: int| 0 <= k < tokens(s).len() ==> uniform_token(#[trigger] tokens(s)[k]),
    decreases s.len(),
{
    if s.len() > 0 {
        lemma_tokens_uniform(s.drop_last());
        let t = tokens(s.drop_last());
        let c = s.last();
        if t.len() > 0 && t.last().len() > 0 && is_digit(t.last().last()) == is_digit(c) {
            let u = t.update(t.len() - 1, t.last().push(c));
            assert forall|k: int| 0 <= k < u.len() implies uniform_token(#[trigger] u[k]) by {
                if k == u.len() - 1 {
                    assert(uniform_token(t[k]));
                    assert(u[k] == t[k].push(c));
                    assert(is_digit(t[k][t[k].len() - 1]) == is_digit(t[k][0]));
                }
            }
        } else {
            let u = t.push(seq![c]);
            assert forall|k: int| 0 <= k < u.len() implies uniform_token(#[trigger] u[k]) by {
                if k < t.len() {
                    assert(u[k] == t[k]);
                }
            }
        }
    }
}

/// Compares two digit runs by the integers they denote, whatever their
/// length (leading zeros are skipped, then length and digits decide).
fn compare_number_tokens(a: &Vec<char>, b: &Vec<char>) -> (r: Ordering)
    requires
        all_digits(a@),
        all_digits(b@),
    ensures
        r == cmp_int(digits_value(a@) as int, digits_value(b@) as int),
{
    let ia = skip_zeros(a);
    let ib = skip_zeros(b);
    let la = a.len() - ia;
    let lb = b.len() - ib;
    let ghost sa = a@.subrange(ia as int, a@.len() as int);
    let ghost sb = b@.subrange(ib as int, b@.len() as int);
    proof {
        lemma_value_bound(sa);
        lemma_value_bound(sb);
    }
    if la < lb {
        proof {
            lemma_value_lower(sb);
            lemma_pow10_mono(la as nat, (lb - 1) as nat);
        }
        return Ordering::Less;
    }
    if lb < la {
        proof {
            lemma_value_lower(sa);
            lemma_pow10_mono(lb as nat, (la - 1) as nat);
        }
        return Ordering::Greater;
    }
    proof {
        lemma_value_same_length(sa, sb);
    }
    let mut j: usize = 0;
    while j < la
        invariant
            la == lb,
            ia <= a@.len() <= usize::MAX,
            ib <= b@.len() <= usize::MAX,
            ia + la == a@.len(),
            ib + lb == b@.len(),
            j <= la,
            sa == a@.subrange(ia as int, a@.len() as int),
            sb == b@.subrange(ib as int, b@.len() as int),
            cmp_int(digits_value(a@) as int, digits_value(b@) as int) == lex_cmp(sa, sb),
            lex_cmp(sa, sb) == lex_cmp(
                a@.subrange(ia + j, a@.len() as int),
                b@.subrange(ib + j, b@.len() as int),
            ),
        decreases la - j,
    {
        let ca = a[ia + j] as u32;
        let cb = b[ib + j] as u32;
        let ghost xa = a@.subrange(ia + j, a@.len() as int);
        let ghost xb = b@.subrange(ib + j, b@.len() as int);
        assert(xa[0] == a@[ia + j]);
        assert(xb[0] == b@[ib + j]);
        if ca < cb {
            return Ordering::Less;
        }
        if ca > cb {
            return Ordering::Greater;
        }
        assert(xa.drop_first() =~= a@.subrange(ia + j + 1, a@.len() as int));
        assert(xb.drop_first() =~= b@.subrange(ib + j + 1, b@.len() as int));
        j = j + 1;
    }
    Ordering::Equal
}

/// The index of the first character of `a` that is not `0`, or its length.
fn skip_zeros(a: &Vec<char>) -> (i: usize)
    requires
        all_digits(a@),
    ensures
        i <= a@.len(),
        digits_value(a@.subrange(i as int, a@.len() as int)) == digits_value(a@),
        i < a@.len() ==> digit_value(a@[i as int]) > 0,
        all_digits(a@.subrange(i as int, a@.len() as int)),
{
    let mut i: usize = 0;
    assert(a@.subrange(0, a@.len() as int) =~= a@);
    while i < a.len() && a[i] as u32 == 48
        invariant
            i <= a@.len(),
            all_digits(a@),
            digits_value(a@.subrange(i as int, a@.len() as int)) == digits_value(a@),
        decreases a.len() - i,
    {
        let ghost x = a@.subrange(i as int, a@.len() as int);
        proof {
            lemma_leading_zero(x);
        }
        assert(x.drop_first() =~= a@.subrange(i + 1, a@.len() as int));
        i = i + 1;
    }
    i
}

/// Lexicographic comparison of two character runs, by code point.
fn compare_text_tokens(a: &Vec<char>, b: &Vec<char>) -> (r: Ordering)
    ensures
        r == lex_cmp(a@, b@),
{
    let mut j: usize = 0;
    assert(a@.subrange(0, a@.len() as int) =~= a@);
    assert(b@.subrange(0, b@.len() as int) =~= b@);
    while j < a.len() && j < b.len()
        invariant
            j <= a@.len(),
            j <= b@.len(),
            lex_cmp(a@, b@) == lex_cmp(
                a@.subrange(j as int, a@.len() as int),
                b@.subrange(j as int, b@.len() as int),
            ),
        decreases a.len() - j,
    {
        let ca = a[j] as u32;
        let cb = b[j] as u32;
        let ghost xa = a@.subrange(j as int, a@.len() as int);
        let ghost xb = b@.subrange(j as int, b@.len() as int);
        assert(xa[0] == a@[j as int]);
        assert(xb[0] == b@[j as int]);
        if ca < cb {
            return Ordering::Less;
        }
        if ca > cb {
            return Ordering::Greater;
        }
        assert(xa.drop_first() =~= a@.subrange(j + 1, a@.len() as int));
        assert(xb.drop_first() =~= b@.subrange(j + 1, b@.len() as int));
        j = j + 1;
    }
    if j < a.len() {
        Ordering::Greater
    } else if j < b.len() {
        Ordering::Less
    } else {
        Ordering::Equal
    }
}

/// Splits a string into maximal runs of ASCII digits and of other characters.
pub fn tokenize_for_natural_sort(s: &str) -> (r: Vec<Vec<char>>)
    ensures
        r@.map_values(|t: Vec<char>| t@) == tokens(s@),
{
    let cs = chars_of(s);
    let mut done: Vec<Vec<char>> = Vec::new();
    let mut cur: Vec<char> = Vec::new();
    let mut cur_digit = false;
    let mut i: usize = 0;
    while i < cs.len()
        invariant
            cs@ == s@,
            i <= cs@.len(),
            i == 0 ==> done@.len() == 0 && cur@.len() == 0,
            i > 0 ==> cur@.len() > 0 && is_digit(cur@.last()) == cur_digit,
            i > 0 ==> tokens(s@.subrange(0, i as int)) == done@.map_values(|t: Vec<char>| t@).push(
                cur@,
            ),
        decreases cs.len() - i,
    {
        let c = cs[i];
        let d = char_is_digit(c);
        let ghost pre = s@.subrange(0, i as int);
        assert(s@.subrange(0, i + 1).drop_last() =~= pre);
        if i == 0 {
            cur.push(c);
            cur_digit = d;
            assert(tokens(pre) =~= seq![]);
            assert(cur@ =~= seq![c]);
            assert(done@.map_values(|t: Vec<char>| t@) =~= seq![]);
            assert(tokens(s@.subrange(0, 1)) =~= done@.map_values(|t: Vec<char>| t@).push(cur@));
        } else if d == cur_digit {
            cur.push(c);
            assert(tokens(s@.subrange(0, i + 1)) =~= done@.map_values(|t: Vec<char>| t@).push(
                cur@,
            ));
        } else {
            let ghost od = done@;
            let ghost oc = cur@;
            done.push(cur);
            cur = Vec::new();
            cur.push(c);
            cur_digit = d;
            assert(done@.map_values(|t: Vec<char>| t@) =~= od.map_values(|t: Vec<char>| t@).push(
                oc,
            ));
            assert(tokens(s@.subrange(0, i + 1)) =~= done@.map_values(|t: Vec<char>| t@).push(
                cur@,
            ));
        }
        i = i + 1;
    }
    assert(s@.subrange(0, cs@.len() as int) =~= s@);
    if i > 0 {
        let ghost od = done@;
        done.push(cur);
        assert(done@.map_values(|t: Vec<char>| t@) =~= od.map_values(|t: Vec<char>| t@).push(
            cur@,
        ));
    } else {
        assert(done@.map_values(|t: Vec<char>| t@) =~= tokens(s@));
    }
    done
}

} // verus!

verus! {

/// The views of a list of tokens.
pub open spec fn token_views(v: Seq<Vec<char>>) -> Seq<Seq<char>> {
    v.map_values(|t: Vec<char>| t@)
}

/// Compares two tokens (see `token_cmp`).
fn compare_tokens(a: &Vec<char>, b: &Vec<char>) -> (r: Ordering)
    requires
        uniform_token(a@),
        uniform_token(b@),
    ensures
        r == token_cmp(a@, b@),
{
    let na = char_is_digit(a[0]);
    let nb = char_is_digit(b[0]);
    if na && nb {
        compare_number_tokens(a, b)
    } else if !na && !nb {
        compare_text_tokens(a, b)
    } else if na {
        Ordering::Less
    } else {
        Ordering::Greater
    }
}

/// Compares two strings in natural order: digit runs by the integer they
/// denote, other runs lexicographically, a digit run before any other run,
/// and the string with fewer tokens first when all compared tokens are equal.
pub fn natural_compare(a: &str, b: &str) -> (r: Ordering)
    ensures
        r == natural_cmp(a@, b@),
{
    let ta = tokenize_for_natural_sort(a);
    let tb = tokenize_for_natural_sort(b);
    proof {
        lemma_tokens_uniform(a@);
        lemma_tokens_uniform(b@);
        assert forall|k: int| 0 <= k < ta@.len() implies uniform_token(#[trigger] ta@[k]@) by {
            assert(token_views(ta@)[k] == ta@[k]@);
        }
        assert forall|k: int| 0 <= k < tb@.len() implies uniform_token(#[trigger] tb@[k]@) by {
            assert(token_views(tb@)[k] == tb@[k]@);
        }
    }
    proof {
        reveal(natural_cmp);
    }
    compare_token_lists(&ta, &tb)
}

/// Compares two token lists (see `tokens_cmp`).
fn compare_token_lists(ta: &Vec<Vec<char>>, tb: &Vec<Vec<char>>) -> (r: Ordering)
    requires
        forall|k: int| 0 <= k < ta@.len() ==> uniform_token(#[trigger] ta@[k]@),
        forall|k: int| 0 <= k < tb@.len() ==> uniform_token(#[trigger] tb@[k]@),
    ensures
        r == tokens_cmp(token_views(ta@), token_views(tb@)),
{
    let ghost va = token_views(ta@);
    let ghost vb = token_views(tb@);
    let mut i: usize = 0;
    assert(va.subrange(0, va.len() as int) =~= va);
    assert(vb.subrange(0, vb.len() as int) =~= vb);
    while i < ta.len() && i < tb.len()
        invariant
            va == token_views(ta@),
            vb == token_views(tb@),
            i <= ta@.len(),
            i <= tb@.len(),
            forall|k: int| 0 <= k < ta@.len() ==> uniform_token(#[trigger] ta@[k]@),
            forall|k: int| 0 <= k < tb@.len() ==> uniform_token(#[trigger] tb@[k]@),
            tokens_cmp(va, vb) == tokens_cmp(
                va.subrange(i as int, va.len() as int),
                vb.subrange(i as int, vb.len() as int),
            ),
        decreases ta.len() - i,
    {
        let ghost xa = va.subrange(i as int, va.len() as int);
        let ghost xb = vb.subrange(i as int, vb.len() as int);
        assert(xa[0] == ta@[i as int]@);
        assert(xb[0] == tb@[i as int]@);
        let o = compare_tokens(&ta[i], &tb[i]);
        match o {
            Ordering::Equal => {},
            _ => {
                return o;
            },
        }
        assert(xa.drop_first() =~= va.subrange(i + 1, va.len() as int));
        assert(xb.drop_first() =~= vb.subrange(i + 1, vb.len() as int));
        i = i + 1;
    }
    if ta.len() < tb.len() {
        Ordering::Less
    } else if ta.len() > tb.len() {
        Ordering::Greater
    } else {
        Ordering::Equal
    }
}

/// The sort key of an entry: its relative path, with `/` appended when the
/// entry is a directory whose path does not already end with one.
pub fn path_string_for_sort(rel: &str, is_dir: bool) -> (r: String)
    ensures
        r@ == sort_key(rel@, is_dir),
{
    let n = rel.unicode_len();
    if is_dir && (n == 0 || rel.get_char(n - 1) != '/') {
        let r = join2(rel, "/");
        proof {
            reveal_strlit("/");
        }
        assert(r@ =~= rel@.push('/'));
        r
    } else {
        String::from_str(rel)
    }
}

/// Whether the positions `order` list the keys in natural order: each key
/// is not greater than the next.
pub open spec fn naturally_sorted(keys: Seq<Seq<char>>, order: Seq<usize>) -> bool {
    forall|i: int| 0 <= i < order.len() - 1 ==> #[trigger] in_order_at(keys, order, i)
}

/// Whether the key at step `i` of `order` is not greater than the next one.
pub open spec fn in_order_at(keys: Seq<Seq<char>>, order: Seq<usize>, i: int) -> bool {
    natural_cmp(keys[order[i] as int], keys[order[i + 1] as int]) != Ordering::Greater
}

/// Whether `order` puts a later position before an earlier one only where
/// its key is strictly smaller.
#[verifier::opaque]
pub open spec fn keeps_ties_in_place(keys: Seq<Seq<char>>, order: Seq<usize>) -> bool {
    forall|i: int, j: int|
        0 <= i < j < order.len() && order[i] > order[j] ==> natural_cmp(
            keys[order[i] as int],
            keys[order[j] as int],
        ) == Ordering::Less
}

/// Whether `order` lists each position below `n` exactly once.
#[verifier::opaque]
pub open spec fn is_permutation(order: Seq<usize>, n: nat) -> bool {
    &&& order.len() == n
    &&& order.no_duplicates()
    &&& forall|i: int| 0 <= i < order.len() ==> #[trigger] order[i] < n
    &&& forall|v: usize| v < n ==> #[trigger] order.contains(v)
}

/// The positions of `keys` in natural order. The sort is stable: keys that
/// compare equal keep their relative order.
pub fn natural_order(keys: &Vec<String>) -> (r: Vec<usize>)
    ensures
        is_permutation(r@, keys@.len()),
        naturally_sorted(views(keys@), r@),
        keeps_ties_in_place(views(keys@), r@),
{
    let ghost ks = views(keys@);
    let mut toks: Vec<Vec<Vec<char>>> = Vec::new();
    let mut t: usize = 0;
    while t < keys.len()
        invariant
            t <= keys@.len(),
            ks == views(keys@),
            toks@.len() == t,
            forall|k: int| 0 <= k < t ==> token_views(#[trigger] toks@[k]@) == tokens(ks[k]),
            forall|k: int, j: int|
                0 <= k < t && 0 <= j < toks@[k]@.len() ==> uniform_token(#[trigger] toks@[k]@[j]@),
        decreases keys.len() - t,
    {
        let tk = tokenize_checked(keys[t].as_str());
        assert(keys@[t as int]@ == ks[t as int]);
        toks.push(tk);
        t = t + 1;
    }
    let mut order: Vec<usize> = Vec::new();
    proof {
        reveal(is_permutation);
        reveal(naturally_sorted);
        reveal(keeps_ties_in_place);
    }
    let mut n: usize = 0;
    while n < keys.len()
        invariant
            ks == views(keys@),
            n <= keys@.len(),
            toks@.len() == keys@.len(),
            forall|k: int|
                0 <= k < keys@.len() ==> token_views(#[trigger] toks@[k]@) == tokens(ks[k]),
            forall|k: int, j: int|
                0 <= k < keys@.len() && 0 <= j < toks@[k]@.len() ==> uniform_token(
                    #[trigger] toks@[k]@[j]@,
                ),
            is_permutation(order@, n as nat),
            naturally_sorted(ks, order@),
            keeps_ties_in_place(ks, order@),
            forall|i: int| 0 <= i < order@.len() ==> #[trigger] order@[i] < n,
        decreases keys.len() - n,
    {
        let mut p: usize = order.len();
        while p > 0 && tokens_before(&toks[n], &toks[order[p - 1]])
            invariant
                ks == views(keys@),
                toks@.len() == keys@.len(),
                forall|k: int|
                    0 <= k < keys@.len() ==> token_views(#[trigger] toks@[k]@) == tokens(ks[k]),
                forall|k: int, j: int|
                    0 <= k < keys@.len() && 0 <= j < toks@[k]@.len() ==> uniform_token(
                        #[trigger] toks@[k]@[j]@,
                    ),
                n < keys@.len(),
                p <= order@.len(),
                is_permutation(order@, n as nat),
                naturally_sorted(ks, order@),
                keeps_ties_in_place(ks, order@),
                forall|i: int| 0 <= i < order@.len() ==> #[trigger] order@[i] < n,
                forall|k: int|
                    p <= k < order@.len() ==> natural_cmp(
                        ks[n as int],
                        #[trigger] ks[order@[k] as int],
                    ) == Ordering::Less,
            decreases p,
        {
            proof {
                reveal(is_permutation);
                assert(order@[p - 1] < n);
                assert(token_views(toks@[n as int]@) == tokens(ks[n as int]));
                assert(token_views(toks@[order@[p - 1] as int]@) == tokens(
                    ks[order@[p - 1] as int],
                ));
                reveal(natural_cmp);
            }
            p = p - 1;
        }
        proof {
            if p > 0 {
                reveal(is_permutation);
                assert(order@[p - 1] < n);
                assert(token_views(toks@[n as int]@) == tokens(ks[n as int]));
                assert(token_views(toks@[order@[p - 1] as int]@) == tokens(
                    ks[order@[p - 1] as int],
                ));
                reveal(natural_cmp);
                lemma_natural_cmp_flip(ks[n as int], ks[order@[p - 1] as int]);
            }
        }
        let ghost old_order = order@;
        order.insert(p, n);
        proof {
            lemma_insert_permutation(old_order, p as int, n);
            lemma_insert_sorted(ks, old_order, p as int, n);
            lemma_insert_stable(ks, old_order, p as int, n);
        }
        n = n + 1;
    }
    order
}

proof fn lemma_insert_permutation(old: Seq<usize>, p: int, n: usize)
    requires
        is_permutation(old, n as nat),
        0 <= p <= old.len(),
    ensures
        is_permutation(old.insert(p, n), (n + 1) as nat),
        forall|i: int| 0 <= i < old.insert(p, n).len() ==> #[trigger] old.insert(p, n)[i] < n + 1,
{
    reveal(is_permutation);
    let new = old.insert(p, n);
    assert forall|i: int| 0 <= i < new.len() implies #[trigger] new[i] < n + 1 by {
        if i < p {
            assert(new[i] == old[i]);
        } else if i > p {
            assert(new[i] == old[i - 1]);
        }
    }
    assert forall|v: usize| v < n + 1 implies #[trigger] new.contains(v) by {
        if v == n {
            assert(new[p] == n);
        } else {
            assert(old.contains(v));
            let j = choose|j: int| 0 <= j < old.len() && old[j] == v;
            if j < p {
                assert(new[j] == v);
            } else {
                assert(new[j + 1] == v);
            }
        }
    }
    assert forall|i: int, j: int| 0 <= i < new.len() && 0 <= j < new.len() && i != j implies new[i]
        != new[j] by {
        if i != p && j != p {
            let oi = if i < p { i } else { i - 1 };
            let oj = if j < p { j } else { j - 1 };
            assert(new[i] == old[oi]);
            assert(new[j] == old[oj]);
        } else if i == p {
            let oj = if j < p { j } else { j - 1 };
            assert(new[j] == old[oj]);
        } else {
            let oi = if i < p { i } else { i - 1 };
            assert(new[i] == old[oi]);
        }
    }
}

proof fn lemma_insert_sorted(ks: Seq<Seq<char>>, old: Seq<usize>, p: int, n: usize)
    requires
        naturally_sorted(ks, old),
        0 <= p <= old.len(),
        p > 0 ==> natural_cmp(ks[old[p - 1] as int], ks[n as int]) != Ordering::Greater,
        p < old.len() ==> natural_cmp(ks[n as int], ks[old[p] as int]) == Ordering::Less,
    ensures
        naturally_sorted(ks, old.insert(p, n)),
{
    reveal(naturally_sorted);
    let new = old.insert(p, n);
    assert forall|i: int| 0 <= i < new.len() - 1 implies #[trigger] in_order_at(ks, new, i) by {
        if i + 1 < p {
            assert(new[i] == old[i]);
            assert(new[i + 1] == old[i + 1]);
            assert(in_order_at(ks, old, i));
        } else if i + 1 == p {
            assert(new[i] == old[i]);
        } else if i == p {
            assert(new[i + 1] == old[i]);
        } else {
            assert(new[i] == old[i - 1]);
            assert(new[i + 1] == old[i]);
            assert(in_order_at(ks, old, i - 1));
        }
    }
}

proof fn lemma_insert_stable(ks: Seq<Seq<char>>, old: Seq<usize>, p: int, n: usize)
    requires
        0 <= p <= old.len(),
        forall|i: int| 0 <= i < old.len() ==> #[trigger] old[i] < n,
        keeps_ties_in_place(ks, old),
        forall|k: int|
            p <= k < old.len() ==> natural_cmp(ks[n as int], #[trigger] ks[old[k] as int])
                == Ordering::Less,
    ensures
        keeps_ties_in_place(ks, old.insert(p, n)),
{
    reveal(keeps_ties_in_place);
    let new = old.insert(p, n);
    assert forall|i: int, j: int| 0 <= i < j < new.len() && new[i] > new[j] implies natural_cmp(
        ks[new[i] as int],
        ks[new[j] as int],
    ) == Ordering::Less by {
        if i == p {
            assert(new[j] == old[j - 1]);
        } else if j == p {
            assert(new[i] == old[i]);
            assert(old[i] < n);
        } else {
            let oi = if i < p { i } else { i - 1 };
            let oj = if j < p { j } else { j - 1 };
            assert(new[i] == old[oi]);
            assert(new[j] == old[oj]);
        }
    }
}

/// Whether `t` is the token list of `s`.
pub open spec fn tokenized_as(t: Seq<Vec<char>>, s: Seq<char>) -> bool {
    &&& token_views(t) == tokens(s)
    &&& forall|k: int| 0 <= k < t.len() ==> uniform_token(#[trigger] t[k]@)
}

/// The tokens of `s`, with what comparing them needs.
fn tokenize_checked(s: &str) -> (r: Vec<Vec<char>>)
    ensures
        tokenized_as(r@, s@),
{
    let r = tokenize_for_natural_sort(s);
    proof {
        lemma_tokens_uniform(s@);
        assert forall|k: int| 0 <= k < r@.len() implies uniform_token(#[trigger] r@[k]@) by {
            assert(token_views(r@)[k] == r@[k]@);
        }
    }
    r
}

/// Whether the string tokenized as `a` comes strictly before the one
/// tokenized as `b`.
fn tokens_before(a: &Vec<Vec<char>>, b: &Vec<Vec<char>>) -> (r: bool)
    requires
        forall|k: int| 0 <= k < a@.len() ==> uniform_token(#[trigger] a@[k]@),
        forall|k: int| 0 <= k < b@.len() ==> uniform_token(#[trigger] b@[k]@),
    ensures
        r == (tokens_cmp(token_views(a@), token_views(b@)) == Ordering::Less),
{
    match compare_token_lists(a, b) {
        Ordering::Less => true,
        _ => false,
    }
}



} // verus!

verus! {

/// Whether `o` is `Less` or `Equal`.
pub open spec fn not_greater(o: Ordering) -> bool {
    o != Ordering::Greater
}

proof fn lemma_lex_trans(a: Seq<char>, b: Seq<char>, c: Seq<char>)
    requires
        not_greater(lex_cmp(a, b)),
        not_greater(lex_cmp(b, c)),
    ensures
        not_greater(lex_cmp(a, c)),
    decreases a.len(),
{
    if a.len() > 0 && b.len() > 0 && c.len() > 0 {
        if (a[0] as u32) == (b[0] as u32) && (b[0] as u32) == (c[0] as u32) {
            lemma_lex_trans(a.drop_first(), b.drop_first(), c.drop_first());
        }
    }
}

proof fn lemma_token_trans(a: Seq<char>, b: Seq<char>, c: Seq<char>)
    requires
        not_greater(token_cmp(a, b)),
        not_greater(token_cmp(b, c)),
    ensures
        not_greater(token_cmp(a, c)),
{
    if !is_number_token(a) && !is_number_token(b) && !is_number_token(c) {
        lemma_lex_trans(a, b, c);
    }
}

proof fn lemma_token_flip(a: Seq<char>, b: Seq<char>)
    ensures
        token_cmp(b, a) == flip(token_cmp(a, b)),
{
    lemma_lex_flip(a, b);
}

proof fn lemma_tokens_trans(a: Seq<Seq<char>>, b: Seq<Seq<char>>, c: Seq<Seq<char>>)
    requires
        not_greater(tokens_cmp(a, b)),
        not_greater(tokens_cmp(b, c)),
    ensures
        not_greater(tokens_cmp(a, c)),
    decreases a.len(),
{
    if a.len() > 0 && b.len() > 0 && c.len() > 0 {
        let x = token_cmp(a[0], b[0]);
        let y = token_cmp(b[0], c[0]);
        lemma_token_trans(a[0], b[0], c[0]);
        lemma_token_flip(a[0], b[0]);
        lemma_token_flip(b[0], c[0]);
        lemma_token_flip(a[0], c[0]);
        if x == Ordering::Less {
            if token_cmp(a[0], c[0]) != Ordering::Less {
                lemma_token_trans(b[0], c[0], a[0]);
            }
        } else if y == Ordering::Less {
            if token_cmp(a[0], c[0]) != Ordering::Less {
                lemma_token_trans(c[0], a[0], b[0]);
            }
        } else {
            lemma_token_trans(c[0], b[0], a[0]);
            lemma_tokens_trans(a.drop_first(), b.drop_first(), c.drop_first());
        }
    }
}

/// The natural order is transitive: if `a` is not after `b` and `b` is not
/// after `c`, then `a` is not after `c`.
pub proof fn lemma_natural_cmp_trans(a: Seq<char>, b: Seq<char>, c: Seq<char>)
    requires
        not_greater(natural_cmp(a, b)),
        not_greater(natural_cmp(b, c)),
    ensures
        not_greater(natural_cmp(a, c)),
{
    reveal(natural_cmp);
    lemma_tokens_trans(tokens(a), tokens(b), tokens(c));
}

} // verus!

verus! {

proof fn lemma_natural_cmp_refl(a: Seq<char>)
    ensures
        natural_cmp(a, a) == Ordering::Equal,
{
    lemma_natural_cmp_flip(a, a);
}

/// A natural order is sorted pair by pair, not only step by step.
pub proof fn lemma_sorted_pairwise(keys: Seq<Seq<char>>, order: Seq<usize>, i: int, j: int)
    requires
        naturally_sorted(keys, order),
        0 <= i <= j < order.len(),
    ensures
        not_greater(natural_cmp(keys[order[i] as int], keys[order[j] as int])),
    decreases j - i,
{
    if i == j {
        lemma_natural_cmp_refl(keys[order[i] as int]);
    } else {
        lemma_sorted_pairwise(keys, order, i, j - 1);
        reveal(naturally_sorted);
        assert(in_order_at(keys, order, j - 1));
        lemma_natural_cmp_trans(
            keys[order[i] as int],
            keys[order[j - 1] as int],
            keys[order[j] as int],
        );
    }
}

proof fn lemma_orders_agree_upto(keys: Seq<Seq<char>>, p: Seq<usize>, q: Seq<usize>, k: int)
    requires
        is_permutation(p, keys.len()),
        is_permutation(q, keys.len()),
        naturally_sorted(keys, p),
        naturally_sorted(keys, q),
        keeps_ties_in_place(keys, p),
        keeps_ties_in_place(keys, q),
        0 <= k <= keys.len(),
    ensures
        forall|i: int| 0 <= i < k ==> p[i] == q[i],
    decreases k,
{
    if k > 0 {
        lemma_orders_agree_upto(keys, p, q, k - 1);
        reveal(is_permutation);
        let m = k - 1;
        let a = p[m];
        let b = q[m];
        if a != b {
            assert(p.contains(b));
            let j = choose|j: int| 0 <= j < p.len() && p[j] == b;
            assert(q.contains(a));
            let jj = choose|j: int| 0 <= j < q.len() && q[j] == a;
            if j < m {
                assert(q[j] == b);
            }
            if jj < m {
                assert(p[jj] == a);
            }
            assert(j > m);
            assert(jj > m);
            lemma_sorted_pairwise(keys, p, m, j);
            lemma_sorted_pairwise(keys, q, m, jj);
            lemma_natural_cmp_flip(keys[a as int], keys[b as int]);
            reveal(keeps_ties_in_place);
            if a > b {
                assert(natural_cmp(keys[p[m] as int], keys[p[j] as int]) == Ordering::Less);
            } else {
                assert(natural_cmp(keys[q[m] as int], keys[q[jj] as int]) == Ordering::Less);
            }
        }
    }
}

/// There is one arrangement only that lists positions in natural order of
/// their keys with ties in their first order: two such orders are equal.
pub proof fn lemma_natural_order_unique(keys: Seq<Seq<char>>, p: Seq<usize>, q: Seq<usize>)
    requires
        is_permutation(p, keys.len()),
        is_permutation(q, keys.len()),
        naturally_sorted(keys, p),
        naturally_sorted(keys, q),
        keeps_ties_in_place(keys, p),
        keeps_ties_in_place(keys, q),
    ensures
        p == q,
{
    lemma_orders_agree_upto(keys, p, q, keys.len() as int);
    reveal(is_permutation);
    assert(p =~= q);
}

} // verus!
