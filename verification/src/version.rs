//! The order of RRP version strings: the precedence of semantic versions.
//!
//! Build metadata (from the first `+`) plays no part. What is left is a
//! release part and, after its first `-`, an optional pre-release tag
//! (`"1.0.0-rc.1"` has the release part `"1.0.0"` and the tag `"rc.1"`).
//! Release parts compare first; between equal release parts a version with
//! no tag ranks above one with a tag, and two tags compare in turn.
//!
//! Release parts and tags are read as dot-separated components (`"0.10.2"`
//! has the components `"0"`, `"10"` and `"2"`) and compare component by
//! component, the first difference deciding; one whose components are a
//! proper prefix of another's is the lower. Two components that are both
//! decimal numbers compare by numeric value (so `"9"` < `"10"` and
//! `"01"` = `"1"`); a number is lower than a component that is not one; two
//! components that are not both numbers compare character by character.

use vstd::prelude::*;

verus! {

/// Three-way comparison of two integers: -1, 0 or 1.
pub open spec fn compare_ints(a: int, b: int) -> int {
    if a < b {
        -1
    } else if a > b {
        1
    } else {
        0
    }
}

/// Whether `c` is one of the ASCII digits `0`–`9`.
pub open spec fn is_digit(c: char) -> bool {
    '0' <= c && c <= '9'
}

/// Whether `s` is a decimal number: one or more ASCII digits.
pub open spec fn is_number(s: Seq<char>) -> bool {
    s.len() > 0 && forall|i: int| 0 <= i < s.len() ==> is_digit(#[trigger] s[i])
}

/// The value of a digit.
pub open spec fn digit_value(c: char) -> int {
    (c as int) - ('0' as int)
}

/// The value of a string of decimal digits.
pub open spec fn number_value(s: Seq<char>) -> int
    decreases s.len(),
{
    if s.len() == 0 {
        0
    } else {
        number_value(s.drop_last()) * 10 + digit_value(s.last())
    }
}

/// Character-by-character comparison of `a` and `b` from position `i` on;
/// running out first makes a string the lower one.
pub open spec fn compare_text_from(a: Seq<char>, b: Seq<char>, i: int) -> int
    decreases a.len() - i,
{
    if i < 0 {
        0
    } else if i >= a.len() {
        if i >= b.len() {
            0
        } else {
            -1
        }
    } else if i >= b.len() {
        1
    } else if (a[i] as int) < (b[i] as int) {
        -1
    } else if (a[i] as int) > (b[i] as int) {
        1
    } else {
        compare_text_from(a, b, i + 1)
    }
}

/// The comparison of two version components.
pub open spec fn compare_component(a: Seq<char>, b: Seq<char>) -> int {
    if is_number(a) && is_number(b) {
        compare_ints(number_value(a), number_value(b))
    } else if is_number(a) {
        -1
    } else if is_number(b) {
        1
    } else {
        compare_text_from(a, b, 0)
    }
}

/// Component-by-component comparison from position `i` on.
pub open spec fn compare_components_from(a: Seq<Seq<char>>, b: Seq<Seq<char>>, i: int) -> int
    decreases a.len() - i,
{
    if i < 0 {
        0
    } else if i >= a.len() {
        if i >= b.len() {
            0
        } else {
            -1
        }
    } else if i >= b.len() {
        1
    } else if compare_component(a[i], b[i]) != 0 {
        compare_component(a[i], b[i])
    } else {
        compare_components_from(a, b, i + 1)
    }
}

/// The dot-separated components of a version string.
pub open spec fn version_components(s: Seq<char>) -> Seq<Seq<char>>
    decreases s.len(),
{
    if s.len() == 0 {
        seq![Seq::<char>::empty()]
    } else {
        let before = version_components(s.drop_last());
        if s.last() == '.' {
            before.push(Seq::<char>::empty())
        } else {
            before.update(before.len() - 1, before.last().push(s.last()))
        }
    }
}

/// The comparison of two dot-separated strings, component by component: -1
/// when `a` is lower, 1 when higher, 0 when they rank the same.
pub open spec fn dotted_compare(a: Seq<char>, b: Seq<char>) -> int {
    compare_components_from(version_components(a), version_components(b), 0)
}

/// The position of the first `c` in `s` at position `i` or later, or the
/// length of `s` when there is none.
pub open spec fn find_char(s: Seq<char>, c: char, i: int) -> int
    decreases s.len() - i,
{
    if i < 0 || i >= s.len() {
        s.len() as int
    } else if s[i] == c {
        i
    } else {
        find_char(s, c, i + 1)
    }
}

/// A version without its build metadata (everything from the first `+`).
pub open spec fn version_core(s: Seq<char>) -> Seq<char> {
    s.subrange(0, find_char(s, '+', 0))
}

/// The release part of a version: its core up to the first `-`.
pub open spec fn release_part(s: Seq<char>) -> Seq<char> {
    let core = version_core(s);
    core.subrange(0, find_char(core, '-', 0))
}

/// The pre-release tag of a version: its core after the first `-`, when the
/// core has one.
pub open spec fn pre_release(s: Seq<char>) -> Option<Seq<char>> {
    let core = version_core(s);
    let k = find_char(core, '-', 0);
    if k < core.len() {
        Some(core.subrange(k + 1, core.len() as int))
    } else {
        None
    }
}

/// The comparison of two pre-release tags: a version without one ranks above
/// every version with one; two tags compare as dot-separated strings.
pub open spec fn pre_release_compare(a: Option<Seq<char>>, b: Option<Seq<char>>) -> int {
    match (a, b) {
        (None, None) => 0,
        (None, Some(_)) => 1,
        (Some(_), None) => -1,
        (Some(x), Some(y)) => dotted_compare(x, y),
    }
}

/// The comparison of two versions: -1 when `a` is lower, 1 when higher, 0
/// when they rank the same. The release parts decide first; between equal
/// release parts, the pre-release tags.
pub open spec fn version_compare(a: Seq<char>, b: Seq<char>) -> int {
    let r = dotted_compare(release_part(a), release_part(b));
    if r != 0 {
        r
    } else {
        pre_release_compare(pre_release(a), pre_release(b))
    }
}

// ---------------------------------------------------------------------------
// The comparison is a total preorder
// ---------------------------------------------------------------------------

proof fn lemma_compare_text_antisym(a: Seq<char>, b: Seq<char>, i: int)
    requires
        i >= 0,
    ensures
        compare_text_from(a, b, i) == -compare_text_from(b, a, i),
    decreases a.len() - i,
{
    if i < a.len() && i < b.len() && (a[i] as int) == (b[i] as int) {
        lemma_compare_text_antisym(a, b, i + 1);
    }
}

proof fn lemma_compare_text_trans(a: Seq<char>, b: Seq<char>, c: Seq<char>, i: int)
    requires
        i >= 0,
        compare_text_from(a, b, i) <= 0,
        compare_text_from(b, c, i) <= 0,
    ensures
        compare_text_from(a, c, i) <= 0,
        compare_text_from(a, b, i) < 0 || compare_text_from(b, c, i) < 0 ==> compare_text_from(a, c, i) < 0,
    decreases a.len() - i,
{
    if i < a.len() && i < b.len() && i < c.len() && (a[i] as int) == (b[i] as int) && (b[i] as int)
        == (c[i] as int) {
        lemma_compare_text_trans(a, b, c, i + 1);
    }
}

proof fn lemma_compare_component_antisym(a: Seq<char>, b: Seq<char>)
    ensures
        compare_component(a, b) == -compare_component(b, a),
{
    lemma_compare_text_antisym(a, b, 0);
}

proof fn lemma_compare_component_trans(a: Seq<char>, b: Seq<char>, c: Seq<char>)
    requires
        compare_component(a, b) <= 0,
        compare_component(b, c) <= 0,
    ensures
        compare_component(a, c) <= 0,
        compare_component(a, b) < 0 || compare_component(b, c) < 0 ==> compare_component(a, c) < 0,
{
    if !is_number(a) && !is_number(b) && !is_number(c) {
        lemma_compare_text_trans(a, b, c, 0);
    }
}

proof fn lemma_compare_components_antisym(a: Seq<Seq<char>>, b: Seq<Seq<char>>, i: int)
    requires
        i >= 0,
    ensures
        compare_components_from(a, b, i) == -compare_components_from(b, a, i),
    decreases a.len() - i,
{
    if i < a.len() && i < b.len() {
        lemma_compare_component_antisym(a[i], b[i]);
        lemma_compare_components_antisym(a, b, i + 1);
    }
}

proof fn lemma_compare_components_trans(a: Seq<Seq<char>>, b: Seq<Seq<char>>, c: Seq<Seq<char>>, i: int)
    requires
        i >= 0,
        compare_components_from(a, b, i) <= 0,
        compare_components_from(b, c, i) <= 0,
    ensures
        compare_components_from(a, c, i) <= 0,
        compare_components_from(a, b, i) < 0 || compare_components_from(b, c, i) < 0
            ==> compare_components_from(a, c, i) < 0,
    decreases a.len() - i,
{
    if i < a.len() && i < b.len() && i < c.len() {
        lemma_compare_component_antisym(a[i], b[i]);
        lemma_compare_component_antisym(b[i], c[i]);
        lemma_compare_component_antisym(a[i], c[i]);
        if compare_component(a[i], b[i]) <= 0 && compare_component(b[i], c[i]) <= 0 {
            lemma_compare_component_trans(a[i], b[i], c[i]);
        }
        if compare_component(a[i], b[i]) == 0 && compare_component(b[i], c[i]) == 0 {
            lemma_compare_components_trans(a, b, c, i + 1);
        }
    }
}

/// Swapping the two dotted strings swaps the outcome of the comparison.
proof fn lemma_dotted_compare_antisymmetric(a: Seq<char>, b: Seq<char>)
    ensures
        dotted_compare(a, b) == -dotted_compare(b, a),
{
    lemma_compare_components_antisym(version_components(a), version_components(b), 0);
}

/// The comparison of dotted strings is transitive, strictly so when either step is
/// strict.
proof fn lemma_dotted_compare_transitive(a: Seq<char>, b: Seq<char>, c: Seq<char>)
    requires
        dotted_compare(a, b) <= 0,
        dotted_compare(b, c) <= 0,
    ensures
        dotted_compare(a, c) <= 0,
        dotted_compare(a, b) < 0 || dotted_compare(b, c) < 0 ==> dotted_compare(a, c) < 0,
{
    lemma_compare_components_trans(version_components(a), version_components(b), version_components(c), 0);
}

/// A dotted string ranks the same as itself.
proof fn lemma_dotted_compare_reflexive(a: Seq<char>)
    ensures
        dotted_compare(a, a) == 0,
{
    lemma_dotted_compare_antisymmetric(a, a);
}

proof fn lemma_pre_release_compare_antisymmetric(a: Option<Seq<char>>, b: Option<Seq<char>>)
    ensures
        pre_release_compare(a, b) == -pre_release_compare(b, a),
{
    if let (Some(x), Some(y)) = (a, b) {
        lemma_dotted_compare_antisymmetric(x, y);
    }
}

proof fn lemma_pre_release_compare_transitive(a: Option<Seq<char>>, b: Option<Seq<char>>, c: Option<Seq<char>>)
    requires
        pre_release_compare(a, b) <= 0,
        pre_release_compare(b, c) <= 0,
    ensures
        pre_release_compare(a, c) <= 0,
        pre_release_compare(a, b) < 0 || pre_release_compare(b, c) < 0 ==> pre_release_compare(a, c) < 0,
{
    if let (Some(x), Some(y), Some(z)) = (a, b, c) {
        lemma_dotted_compare_transitive(x, y, z);
    }
}

/// Swapping the two versions swaps the outcome of the comparison.
pub proof fn lemma_version_compare_antisymmetric(a: Seq<char>, b: Seq<char>)
    ensures
        version_compare(a, b) == -version_compare(b, a),
{
    lemma_dotted_compare_antisymmetric(release_part(a), release_part(b));
    lemma_pre_release_compare_antisymmetric(pre_release(a), pre_release(b));
}

/// The comparison of versions is transitive, strictly so when either step is
/// strict.
pub proof fn lemma_version_compare_transitive(a: Seq<char>, b: Seq<char>, c: Seq<char>)
    requires
        version_compare(a, b) <= 0,
        version_compare(b, c) <= 0,
    ensures
        version_compare(a, c) <= 0,
        version_compare(a, b) < 0 || version_compare(b, c) < 0 ==> version_compare(a, c) < 0,
{
    let (ra, rb, rc) = (release_part(a), release_part(b), release_part(c));
    lemma_dotted_compare_antisymmetric(ra, rb);
    lemma_dotted_compare_antisymmetric(rb, rc);
    lemma_dotted_compare_antisymmetric(ra, rc);
    assert(dotted_compare(ra, rb) <= 0);
    assert(dotted_compare(rb, rc) <= 0);
    lemma_dotted_compare_transitive(ra, rb, rc);
    if dotted_compare(ra, rb) == 0 && dotted_compare(rb, rc) == 0 {
        lemma_dotted_compare_transitive(rc, rb, ra);
        lemma_pre_release_compare_transitive(pre_release(a), pre_release(b), pre_release(c));
    }
}

/// A version ranks the same as itself.
pub proof fn lemma_version_compare_reflexive(a: Seq<char>)
    ensures
        version_compare(a, a) == 0,
{
    lemma_version_compare_antisymmetric(a, a);
}

/// The first `c` from position `i` on lies between `i` and the length.
proof fn lemma_find_char_bounds(s: Seq<char>, c: char, i: int)
    requires
        0 <= i <= s.len(),
    ensures
        i <= find_char(s, c, i) <= s.len(),
    decreases s.len() - i,
{
    if i < s.len() && s[i] != c {
        lemma_find_char_bounds(s, c, i + 1);
    }
}

// ---------------------------------------------------------------------------
// Numbers written with more or fewer digits
// ---------------------------------------------------------------------------

/// Ten to the power `n`.
pub open spec fn pow10(n: nat) -> int
    decreases n,
{
    if n == 0 {
        1
    } else {
        10 * pow10((n - 1) as nat)
    }
}

/// Whether every character of `s` is a digit (the empty string included).
pub open spec fn all_digits(s: Seq<char>) -> bool {
    forall|i: int| 0 <= i < s.len() ==> is_digit(#[trigger] s[i])
}

proof fn lemma_pow10_monotonic(m: nat, n: nat)
    requires
        m <= n,
    ensures
        1 <= pow10(m) <= pow10(n),
    decreases n,
{
    if n > 0 {
        if m < n {
            lemma_pow10_monotonic(m, (n - 1) as nat);
        } else {
            lemma_pow10_monotonic((m - 1) as nat, (n - 1) as nat);
        }
    }
}

/// A string of `n` digits is worth less than ten to the `n`.
proof fn lemma_number_below_pow10(s: Seq<char>)
    requires
        all_digits(s),
    ensures
        0 <= number_value(s) < pow10(s.len()),
    decreases s.len(),
{
    if s.len() > 0 {
        let t = s.drop_last();
        assert(all_digits(t)) by {
            assert forall|i: int| 0 <= i < t.len() implies is_digit(#[trigger] t[i]) by {
                assert(t[i] == s[i]);
            }
        }
        lemma_number_below_pow10(t);
        assert(is_digit(s[s.len() - 1]));
    }
}

/// A string of `n` digits that does not start with `0` is worth at least ten
/// to the `n - 1`.
proof fn lemma_number_at_least_pow10(s: Seq<char>)
    requires
        all_digits(s),
        s.len() >= 1,
        s[0] != '0',
    ensures
        number_value(s) >= pow10((s.len() - 1) as nat),
    decreases s.len(),
{
    let t = s.drop_last();
    assert(all_digits(t)) by {
        assert forall|i: int| 0 <= i < t.len() implies is_digit(#[trigger] t[i]) by {
            assert(t[i] == s[i]);
        }
    }
    assert(is_digit(s[s.len() - 1]));
    if s.len() == 1 {
        assert(t.len() == 0);
        assert(number_value(t) == 0);
        assert(is_digit(s[0]));
        assert(s.last() == s[0]);
        assert(digit_value(s[0]) >= 1);
    } else {
        assert(t[0] == s[0]);
        lemma_number_at_least_pow10(t);
    }
}

/// A leading `0` does not change a number's value.
proof fn lemma_number_leading_zero(t: Seq<char>)
    ensures
        number_value(seq!['0'] + t) == number_value(t),
    decreases t.len(),
{
    let s = seq!['0'] + t;
    if t.len() == 0 {
        assert(s.drop_last() =~= Seq::<char>::empty());
        assert(s.last() == '0');
        assert(number_value(s.drop_last()) == 0);
    } else {
        assert(s.drop_last() =~= seq!['0'] + t.drop_last());
        assert(s.last() == t.last());
        lemma_number_leading_zero(t.drop_last());
    }
}

/// Leading zeros do not change a number's value.
proof fn lemma_number_strip_zeros(s: Seq<char>, k: int)
    requires
        0 <= k <= s.len(),
        forall|j: int| 0 <= j < k ==> #[trigger] s[j] == '0',
    ensures
        number_value(s) == number_value(s.subrange(k, s.len() as int)),
    decreases k,
{
    if k == 0 {
        assert(s.subrange(0, s.len() as int) =~= s);
    } else {
        lemma_number_strip_zeros(s, k - 1);
        assert(s.subrange(k - 1, s.len() as int) =~= seq!['0'] + s.subrange(k, s.len() as int));
        lemma_number_leading_zero(s.subrange(k, s.len() as int));
    }
}

/// Of two digit strings of the same length, the one with the lower digit at
/// the first difference is the lower number.
proof fn lemma_number_first_difference(a: Seq<char>, b: Seq<char>, k: int)
    requires
        all_digits(a),
        all_digits(b),
        a.len() == b.len(),
        0 <= k < a.len(),
        forall|j: int| 0 <= j < k ==> #[trigger] a[j] == b[j],
        (a[k] as int) < (b[k] as int),
    ensures
        number_value(a) < number_value(b),
    decreases a.len(),
{
    let n = a.len() as int;
    let ta = a.drop_last();
    let tb = b.drop_last();
    assert(all_digits(ta)) by {
        assert forall|i: int| 0 <= i < ta.len() implies is_digit(#[trigger] ta[i]) by {
            assert(ta[i] == a[i]);
        }
    }
    assert(all_digits(tb)) by {
        assert forall|i: int| 0 <= i < tb.len() implies is_digit(#[trigger] tb[i]) by {
            assert(tb[i] == b[i]);
        }
    }
    assert(is_digit(a[n - 1]));
    assert(is_digit(b[n - 1]));
    if k == n - 1 {
        assert(ta =~= tb) by {
            assert forall|i: int| 0 <= i < ta.len() implies ta[i] == tb[i] by {
                assert(a[i] == b[i]);
            }
        }
    } else {
        assert forall|j: int| 0 <= j < k implies #[trigger] ta[j] == tb[j] by {
            assert(a[j] == b[j]);
        }
        lemma_number_first_difference(ta, tb, k);
    }
}

// ---------------------------------------------------------------------------
// Canonical versions rank apart
// ---------------------------------------------------------------------------

/// Whether a component is written canonically: a number has no leading zero
/// (but for `"0"` itself).
pub open spec fn is_canonical_component(c: Seq<char>) -> bool {
    is_number(c) ==> (c.len() == 1 || c[0] != '0')
}

/// Whether every component of a list is written canonically.
pub open spec fn all_canonical(parts: Seq<Seq<char>>) -> bool {
    forall|i: int| 0 <= i < parts.len() ==> is_canonical_component(#[trigger] parts[i])
}

/// Whether a version is written in canonical form, as semantic versions are:
/// no build metadata, and no numeric component of its release part or of
/// its pre-release tag with a leading zero.
pub open spec fn is_canonical_version(s: Seq<char>) -> bool {
    &&& find_char(s, '+', 0) == s.len()
    &&& all_canonical(version_components(release_part(s)))
    &&& (pre_release(s) matches Some(p) ==> all_canonical(version_components(p)))
}

/// The dot-separated components joined back with dots.
pub open spec fn join_components(parts: Seq<Seq<char>>) -> Seq<char>
    decreases parts.len(),
{
    if parts.len() == 0 {
        Seq::empty()
    } else if parts.len() == 1 {
        parts[0]
    } else {
        join_components(parts.drop_last()) + seq!['.'] + parts.last()
    }
}

/// Joining the components of a string gives the string back.
proof fn lemma_join_components(s: Seq<char>)
    ensures
        version_components(s).len() >= 1,
        join_components(version_components(s)) == s,
    decreases s.len(),
{
    if s.len() == 0 {
        assert(join_components(seq![Seq::<char>::empty()]) == Seq::<char>::empty());
    } else {
        let t = s.drop_last();
        let c = s.last();
        lemma_join_components(t);
        let p = version_components(t);
        let n = p.len();
        if c == '.' {
            let q = p.push(Seq::<char>::empty());
            assert(q.drop_last() =~= p);
            assert(join_components(q) == join_components(p) + seq!['.'] + Seq::<char>::empty());
            assert(t + seq!['.'] + Seq::<char>::empty() =~= s);
        } else {
            let q = p.update(n - 1, p.last().push(c));
            if n == 1 {
                assert(q[0] == p[0].push(c));
                assert(p[0].push(c) =~= s);
            } else {
                assert(q.drop_last() =~= p.drop_last());
                assert(q.last() == p.last().push(c));
                assert(join_components(p.drop_last()) + seq!['.'] + p.last().push(c) =~= (join_components(
                    p.drop_last(),
                ) + seq!['.'] + p.last()).push(c));
                assert(t.push(c) =~= s);
            }
        }
    }
}

/// Text components that compare equal from position `i` on agree from
/// there on.
proof fn lemma_text_equal(a: Seq<char>, b: Seq<char>, i: int)
    requires
        0 <= i,
        i <= a.len(),
        i <= b.len(),
        compare_text_from(a, b, i) == 0,
    ensures
        a.len() == b.len(),
        forall|j: int| i <= j < a.len() ==> a[j] == b[j],
    decreases a.len() - i,
{
    if i < a.len() && i < b.len() {
        lemma_text_equal(a, b, i + 1);
    }
}

/// Two canonical numbers of one value are the same string.
proof fn lemma_number_equal(a: Seq<char>, b: Seq<char>)
    requires
        is_number(a),
        is_number(b),
        is_canonical_component(a),
        is_canonical_component(b),
        number_value(a) == number_value(b),
    ensures
        a == b,
{
    assert(all_digits(a));
    assert(all_digits(b));
    lemma_number_below_pow10(a);
    lemma_number_below_pow10(b);
    if a.len() < b.len() {
        lemma_number_at_least_pow10(b);
        lemma_pow10_monotonic(a.len(), (b.len() - 1) as nat);
    } else if b.len() < a.len() {
        lemma_number_at_least_pow10(a);
        lemma_pow10_monotonic(b.len(), (a.len() - 1) as nat);
    } else {
        lemma_digits_equal_from(a, b, 0);
        assert(a =~= b);
    }
}

/// Digit strings of one length and one value that agree before `k` agree
/// everywhere.
proof fn lemma_digits_equal_from(a: Seq<char>, b: Seq<char>, k: int)
    requires
        all_digits(a),
        all_digits(b),
        a.len() == b.len(),
        number_value(a) == number_value(b),
        0 <= k <= a.len(),
        forall|j: int| 0 <= j < k ==> #[trigger] a[j] == b[j],
    ensures
        forall|j: int| 0 <= j < a.len() ==> #[trigger] a[j] == b[j],
    decreases a.len() - k,
{
    if k < a.len() {
        if (a[k] as int) < (b[k] as int) {
            lemma_number_first_difference(a, b, k);
        } else if (b[k] as int) < (a[k] as int) {
            assert forall|j: int| 0 <= j < k implies #[trigger] b[j] == a[j] by {
                assert(a[j] == b[j]);
            }
            lemma_number_first_difference(b, a, k);
        } else {
            lemma_digits_equal_from(a, b, k + 1);
        }
    }
}

/// Two canonical components that rank the same are the same string.
proof fn lemma_component_equal(a: Seq<char>, b: Seq<char>)
    requires
        is_canonical_component(a),
        is_canonical_component(b),
        compare_component(a, b) == 0,
    ensures
        a == b,
{
    if is_number(a) && is_number(b) {
        lemma_number_equal(a, b);
    } else {
        lemma_text_equal(a, b, 0);
        assert(a =~= b);
    }
}

/// Lists of canonical components that rank the same from position `i` on
/// agree from there on.
proof fn lemma_components_equal(a: Seq<Seq<char>>, b: Seq<Seq<char>>, i: int)
    requires
        0 <= i,
        i <= a.len(),
        i <= b.len(),
        all_canonical(a),
        all_canonical(b),
        compare_components_from(a, b, i) == 0,
    ensures
        a.len() == b.len(),
        forall|j: int| i <= j < a.len() ==> a[j] == b[j],
    decreases a.len() - i,
{
    if i < a.len() && i < b.len() {
        lemma_component_equal(a[i], b[i]);
        lemma_components_equal(a, b, i + 1);
    }
}

/// Two dot-separated strings of canonical components that rank the same are
/// the same string.
proof fn lemma_dotted_equal(a: Seq<char>, b: Seq<char>)
    requires
        all_canonical(version_components(a)),
        all_canonical(version_components(b)),
        dotted_compare(a, b) == 0,
    ensures
        a == b,
{
    lemma_join_components(a);
    lemma_join_components(b);
    lemma_components_equal(version_components(a), version_components(b), 0);
    assert(version_components(a) =~= version_components(b));
}

/// Where `find_char` stops short of the end, the character is there.
proof fn lemma_find_char_found(s: Seq<char>, c: char, i: int)
    requires
        0 <= i <= s.len(),
        find_char(s, c, i) < s.len(),
    ensures
        s[find_char(s, c, i)] == c,
    decreases s.len() - i,
{
    if s[i] != c {
        lemma_find_char_found(s, c, i + 1);
    }
}

/// A version is its release part, then `-` and its pre-release tag when it
/// has one, then its build metadata.
proof fn lemma_core_parts(s: Seq<char>)
    ensures
        version_core(s) == match pre_release(s) {
            Some(p) => release_part(s) + seq!['-'] + p,
            None => release_part(s),
        },
{
    lemma_find_char_bounds(s, '+', 0);
    let core = version_core(s);
    lemma_find_char_bounds(core, '-', 0);
    let k = find_char(core, '-', 0);
    if k < core.len() {
        lemma_find_char_found(core, '-', 0);
        assert(core =~= core.subrange(0, k) + seq!['-'] + core.subrange(k + 1, core.len() as int));
    } else {
        assert(core =~= core.subrange(0, k));
    }
}

/// Two canonical versions that rank the same are the same string: between
/// canonical versions the order has no ties.
pub proof fn lemma_canonical_versions_rank_apart(a: Seq<char>, b: Seq<char>)
    requires
        is_canonical_version(a),
        is_canonical_version(b),
        version_compare(a, b) == 0,
    ensures
        a == b,
{
    lemma_dotted_compare_antisymmetric(release_part(a), release_part(b));
    lemma_dotted_equal(release_part(a), release_part(b));
    if let (Some(x), Some(y)) = (pre_release(a), pre_release(b)) {
        lemma_dotted_equal(x, y);
    }
    lemma_core_parts(a);
    lemma_core_parts(b);
    assert(version_core(a) =~= a);
    assert(version_core(b) =~= b);
}

// ---------------------------------------------------------------------------
// What the order says of particular shapes of versions
// ---------------------------------------------------------------------------

/// Whether `s` holds no `c`.
pub open spec fn lacks_char(s: Seq<char>, c: char) -> bool {
    forall|j: int| 0 <= j < s.len() ==> #[trigger] s[j] != c
}

/// `find_char` stops at the first `c` at or after `i`, or at the end.
proof fn lemma_find_char_first(s: Seq<char>, c: char, i: int, k: int)
    requires
        0 <= i <= k <= s.len(),
        forall|j: int| i <= j < k ==> #[trigger] s[j] != c,
        k == s.len() || s[k] == c,
    ensures
        find_char(s, c, i) == k,
    decreases k - i,
{
    if i < k {
        lemma_find_char_first(s, c, i + 1, k);
    }
}

/// A string with no dot is its only component.
proof fn lemma_components_single(s: Seq<char>)
    requires
        lacks_char(s, '.'),
    ensures
        version_components(s) == seq![s],
    decreases s.len(),
{
    if s.len() > 0 {
        let t = s.drop_last();
        assert(lacks_char(t, '.')) by {
            assert forall|j: int| 0 <= j < t.len() implies #[trigger] t[j] != '.' by {
                assert(t[j] == s[j]);
            }
        }
        lemma_components_single(t);
        assert(s.last() != '.');
        assert(t.push(s.last()) =~= s);
        assert(seq![t].update(0, t.push(s.last())) =~= seq![s]);
    } else {
        assert(s =~= Seq::<char>::empty());
    }
}

/// A version with no `+` and no `-` is its own release part, with no
/// pre-release tag.
proof fn lemma_plain_release(s: Seq<char>)
    requires
        lacks_char(s, '+'),
        lacks_char(s, '-'),
    ensures
        release_part(s) == s,
        pre_release(s) is None,
{
    lemma_find_char_first(s, '+', 0, s.len() as int);
    assert(version_core(s) =~= s);
    lemma_find_char_first(s, '-', 0, s.len() as int);
    assert(s.subrange(0, s.len() as int) =~= s);
}

/// Two versions that are plain decimal numbers compare by their values:
/// `"9"` is lower than `"10"`, and `"01"` ranks with `"1"`.
pub proof fn lemma_numbers_compare_by_value(a: Seq<char>, b: Seq<char>)
    requires
        is_number(a),
        is_number(b),
    ensures
        version_compare(a, b) == compare_ints(number_value(a), number_value(b)),
{
    lemma_number_lacks(a);
    lemma_number_lacks(b);
    lemma_plain_release(a);
    lemma_plain_release(b);
    lemma_components_single(a);
    lemma_components_single(b);
    let (ca, cb) = (seq![a], seq![b]);
    assert(compare_components_from(ca, cb, 1) == 0);
    assert(dotted_compare(a, b) == compare_component(a, b));
}

/// A decimal number holds no `+`, `-` or `.`.
proof fn lemma_number_lacks(x: Seq<char>)
    requires
        is_number(x),
    ensures
        lacks_char(x, '+'),
        lacks_char(x, '-'),
        lacks_char(x, '.'),
{
    assert forall|j: int| 0 <= j < x.len() implies #[trigger] x[j] != '+' && x[j] != '-' && x[j] != '.' by {
        assert(is_digit(x[j]));
    }
}

/// A pre-release ranks below its release: `r-p` is lower than `r` for a
/// release part `r` (no `-`, no `+`) and any tag `p` (no `+`).
pub proof fn lemma_pre_release_below_release(r: Seq<char>, p: Seq<char>)
    requires
        lacks_char(r, '-'),
        lacks_char(r, '+'),
        lacks_char(p, '+'),
    ensures
        version_compare(r + seq!['-'] + p, r) < 0,
{
    let s = r + seq!['-'] + p;
    assert forall|j: int| 0 <= j < s.len() implies #[trigger] s[j] != '+' by {
        if j < r.len() {
            assert(s[j] == r[j]);
        } else if j > r.len() {
            assert(s[j] == p[j - r.len() - 1]);
        }
    }
    lemma_find_char_first(s, '+', 0, s.len() as int);
    assert(version_core(s) =~= s);
    assert forall|j: int| 0 <= j < r.len() implies #[trigger] s[j] != '-' by {
        assert(s[j] == r[j]);
    }
    lemma_find_char_first(s, '-', 0, r.len() as int);
    assert(s.subrange(0, r.len() as int) =~= r);
    lemma_plain_release(r);
    lemma_dotted_compare_reflexive(r);
}

/// Build metadata plays no part in the order: `s+b` ranks the same as `s`
/// for any version `s` without build metadata.
pub proof fn lemma_build_metadata_ignored(s: Seq<char>, b: Seq<char>)
    requires
        lacks_char(s, '+'),
    ensures
        version_compare(s + seq!['+'] + b, s) == 0,
{
    let t = s + seq!['+'] + b;
    assert forall|j: int| 0 <= j < s.len() implies #[trigger] t[j] != '+' by {
        assert(t[j] == s[j]);
    }
    lemma_find_char_first(t, '+', 0, s.len() as int);
    lemma_find_char_first(s, '+', 0, s.len() as int);
    assert(version_core(t) =~= version_core(s));
    lemma_version_compare_reflexive(s);
}

// ---------------------------------------------------------------------------
// Computing the comparison
// ---------------------------------------------------------------------------

/// The components of a version as character sequences.
pub open spec fn parts_view(parts: Seq<Vec<char>>) -> Seq<Seq<char>> {
    parts.map_values(|p: Vec<char>| p@)
}

/// The characters of a string.
fn chars_of(s: &str) -> (r: Vec<char>)
    ensures
        r@ == s@,
{
    let n = s.unicode_len();
    let mut out: Vec<char> = Vec::new();
    let mut i: usize = 0;
    while i < n
        invariant
            n == s@.len(),
            i <= n,
            out@ == s@.subrange(0, i as int),
        decreases n - i,
    {
        out.push(s.get_char(i));
        i = i + 1;
        assert(out@ =~= s@.subrange(0, i as int));
    }
    assert(s@.subrange(0, n as int) =~= s@);
    out
}

/// The dot-separated components of a version's characters.
fn split_components(s: &Vec<char>) -> (r: Vec<Vec<char>>)
    ensures
        parts_view(r@) == version_components(s@),
{
    let mut parts: Vec<Vec<char>> = Vec::new();
    let mut cur: Vec<char> = Vec::new();
    let mut i: usize = 0;
    assert(s@.subrange(0, 0) =~= Seq::<char>::empty());
    assert(parts_view(parts@).push(cur@) =~= seq![Seq::<char>::empty()]);
    while i < s.len()
        invariant
            i <= s.len(),
            version_components(s@.subrange(0, i as int)) == parts_view(parts@).push(cur@),
        decreases s.len() - i,
    {
        let c = s[i];
        let ghost prefix = s@.subrange(0, i as int + 1);
        assert(prefix.drop_last() =~= s@.subrange(0, i as int));
        assert(prefix.last() == c);
        if c == '.' {
            let ghost before = parts_view(parts@);
            let done = cur;
            parts.push(done);
            cur = Vec::new();
            assert(parts_view(parts@) =~= before.push(done@));
            assert(cur@ =~= Seq::<char>::empty());
        } else {
            let ghost before = parts_view(parts@).push(cur@);
            cur.push(c);
            assert(parts_view(parts@).push(cur@) =~= before.update(
                before.len() - 1,
                before.last().push(c),
            ));
        }
        i = i + 1;
    }
    assert(s@.subrange(0, s.len() as int) =~= s@);
    let ghost before = parts_view(parts@);
    let last = cur;
    parts.push(last);
    assert(parts_view(parts@) =~= before.push(last@));
    parts
}

/// Whether a component is a decimal number.
fn is_number_exec(a: &Vec<char>) -> (r: bool)
    ensures
        r == is_number(a@),
{
    if a.len() == 0 {
        return false;
    }
    let mut i: usize = 0;
    while i < a.len()
        invariant
            i <= a.len(),
            forall|j: int| 0 <= j < i ==> is_digit(#[trigger] a@[j]),
        decreases a.len() - i,
    {
        let c = a[i];
        if !('0' <= c && c <= '9') {
            return false;
        }
        i = i + 1;
    }
    true
}

/// Character-by-character comparison of two components.
fn compare_text_exec(a: &Vec<char>, b: &Vec<char>) -> (r: i8)
    ensures
        r == compare_text_from(a@, b@, 0),
{
    let mut i: usize = 0;
    while i < a.len() && i < b.len()
        invariant
            i <= a.len(),
            i <= b.len(),
            compare_text_from(a@, b@, 0) == compare_text_from(a@, b@, i as int),
        decreases a.len() - i,
    {
        let x = a[i];
        let y = b[i];
        if x < y {
            return -1;
        }
        if y < x {
            return 1;
        }
        i = i + 1;
    }
    if i < b.len() {
        -1
    } else if i < a.len() {
        1
    } else {
        0
    }
}

/// The position of the first character of `a` that is not `0`.
fn skip_zeros(a: &Vec<char>) -> (k: usize)
    ensures
        k <= a.len(),
        forall|j: int| 0 <= j < k ==> #[trigger] a@[j] == '0',
        k < a.len() ==> a@[k as int] != '0',
{
    let mut k: usize = 0;
    while k < a.len() && a[k] == '0'
        invariant
            k <= a.len(),
            forall|j: int| 0 <= j < k ==> #[trigger] a@[j] == '0',
        decreases a.len() - k,
    {
        k = k + 1;
    }
    k
}

/// Numeric comparison of two decimal numbers of any length.
fn compare_numbers_exec(a: &Vec<char>, b: &Vec<char>) -> (r: i8)
    requires
        is_number(a@),
        is_number(b@),
    ensures
        r == compare_ints(number_value(a@), number_value(b@)),
{
    let ia = skip_zeros(a);
    let ib = skip_zeros(b);
    let la = a.len() - ia;
    let lb = b.len() - ib;
    let ghost sa = a@.subrange(ia as int, a.len() as int);
    let ghost sb = b@.subrange(ib as int, b.len() as int);
    proof {
        lemma_number_strip_zeros(a@, ia as int);
        lemma_number_strip_zeros(b@, ib as int);
        assert(all_digits(sa)) by {
            assert forall|i: int| 0 <= i < sa.len() implies is_digit(#[trigger] sa[i]) by {
                assert(sa[i] == a@[ia + i]);
            }
        }
        assert(all_digits(sb)) by {
            assert forall|i: int| 0 <= i < sb.len() implies is_digit(#[trigger] sb[i]) by {
                assert(sb[i] == b@[ib + i]);
            }
        }
        lemma_number_below_pow10(sa);
        lemma_number_below_pow10(sb);
    }
    if la < lb {
        proof {
            lemma_number_at_least_pow10(sb);
            lemma_pow10_monotonic(sa.len(), (sb.len() - 1) as nat);
        }
        return -1;
    }
    if lb < la {
        proof {
            lemma_number_at_least_pow10(sa);
            lemma_pow10_monotonic(sb.len(), (sa.len() - 1) as nat);
        }
        return 1;
    }
    let mut k: usize = 0;
    while k < la
        invariant
            la == lb,
            la == a.len() - ia,
            lb == b.len() - ib,
            ia <= a.len(),
            ib <= b.len(),
            k <= la,
            sa == a@.subrange(ia as int, a.len() as int),
            sb == b@.subrange(ib as int, b.len() as int),
            all_digits(sa),
            all_digits(sb),
            number_value(a@) == number_value(sa),
            number_value(b@) == number_value(sb),
            forall|j: int| 0 <= j < k ==> #[trigger] sa[j] == sb[j],
        decreases la - k,
    {
        let x = a[ia + k];
        let y = b[ib + k];
        assert(sa[k as int] == x);
        assert(sb[k as int] == y);
        if x < y {
            proof {
                lemma_number_first_difference(sa, sb, k as int);
            }
            return -1;
        }
        if y < x {
            proof {
                lemma_number_first_difference(sb, sa, k as int);
                assert forall|j: int| 0 <= j < k implies #[trigger] sb[j] == sa[j] by {}
            }
            return 1;
        }
        k = k + 1;
    }
    assert(sa =~= sb);
    0
}

/// The comparison of two version components.
fn compare_component_exec(a: &Vec<char>, b: &Vec<char>) -> (r: i8)
    ensures
        r == compare_component(a@, b@),
{
    let na = is_number_exec(a);
    let nb = is_number_exec(b);
    if na && nb {
        compare_numbers_exec(a, b)
    } else if na {
        -1
    } else if nb {
        1
    } else {
        compare_text_exec(a, b)
    }
}

/// Compares two dot-separated strings component by component.
fn compare_dotted(ca: &Vec<char>, cb: &Vec<char>) -> (r: i8)
    ensures
        r == dotted_compare(ca@, cb@),
{
    let pa = split_components(ca);
    let pb = split_components(cb);
    let ghost va = parts_view(pa@);
    let ghost vb = parts_view(pb@);
    let mut i: usize = 0;
    while i < pa.len() && i < pb.len()
        invariant
            i <= pa.len(),
            i <= pb.len(),
            va == parts_view(pa@),
            vb == parts_view(pb@),
            va == version_components(ca@),
            vb == version_components(cb@),
            compare_components_from(va, vb, 0) == compare_components_from(va, vb, i as int),
        decreases pa.len() - i,
    {
        let c = compare_component_exec(&pa[i], &pb[i]);
        assert(va[i as int] == pa@[i as int]@);
        assert(vb[i as int] == pb@[i as int]@);
        if c != 0 {
            return c;
        }
        i = i + 1;
    }
    if i < pb.len() {
        -1
    } else if i < pa.len() {
        1
    } else {
        0
    }
}

/// The position of the first `c` in `s`, or its length when there is none.
fn find_char_exec(s: &Vec<char>, c: char) -> (k: usize)
    ensures
        k == find_char(s@, c, 0),
{
    let mut i: usize = 0;
    while i < s.len() && s[i] != c
        invariant
            i <= s.len(),
            find_char(s@, c, 0) == find_char(s@, c, i as int),
        decreases s.len() - i,
    {
        i = i + 1;
    }
    i
}

/// The characters of `s` from `lo` up to `hi`.
fn sub_chars(s: &Vec<char>, lo: usize, hi: usize) -> (r: Vec<char>)
    requires
        lo <= hi <= s.len(),
    ensures
        r@ == s@.subrange(lo as int, hi as int),
{
    let mut out: Vec<char> = Vec::new();
    let mut i: usize = lo;
    while i < hi
        invariant
            lo <= i <= hi,
            hi <= s.len(),
            out@ == s@.subrange(lo as int, i as int),
        decreases hi - i,
    {
        out.push(s[i]);
        i = i + 1;
        assert(out@ =~= s@.subrange(lo as int, i as int));
    }
    out
}

/// The release part and the pre-release tag of a version's characters.
fn split_version(s: &Vec<char>) -> (r: (Vec<char>, Option<Vec<char>>))
    ensures
        r.0@ == release_part(s@),
        match r.1 {
            Some(p) => pre_release(s@) == Some(p@),
            None => pre_release(s@) is None,
        },
{
    let k = find_char_exec(s, '+');
    proof {
        lemma_find_char_bounds(s@, '+', 0);
    }
    let core = sub_chars(s, 0, k);
    let j = find_char_exec(&core, '-');
    proof {
        lemma_find_char_bounds(core@, '-', 0);
    }
    let release = sub_chars(&core, 0, j);
    if j < core.len() {
        let pre = sub_chars(&core, j + 1, core.len());
        (release, Some(pre))
    } else {
        (release, None)
    }
}

/// Compares two versions: -1 when `a` is the lower version, 1 when it is
/// the higher, 0 when they rank the same.
pub fn compare_versions(a: &str, b: &str) -> (r: i8)
    ensures
        r == version_compare(a@, b@),
{
    let ca = chars_of(a);
    let cb = chars_of(b);
    let (ra, pa) = split_version(&ca);
    let (rb, pb) = split_version(&cb);
    let r = compare_dotted(&ra, &rb);
    if r != 0 {
        return r;
    }
    match (pa, pb) {
        (None, None) => 0,
        (None, Some(_)) => 1,
        (Some(_), None) => -1,
        (Some(x), Some(y)) => compare_dotted(&x, &y),
    }
}

} // verus!

