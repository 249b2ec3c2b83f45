//! Plain notions that the statements share, and how the library's own notions relate to them.
use crate::table::{filter_none, filter_push, first_where, last_where};
use crate::text::{lower, text_lt};
use crate::time::{
    distance, hours_between, instant_of, instant_ok, instant_or, nanos_between, rfc3339_instant,
    rfc3339_text, seconds_between, UtcTime,
};
use crate::types::{GameMode, Real};
use vstd::prelude::*;

verus! {

/// The number under which the tables keep a mode.
pub open spec fn mode_number(mode: GameMode) -> int {
    match mode {
        GameMode::Osu => 0,
        GameMode::Taiko => 1,
        GameMode::Catch => 2,
        GameMode::Mania => 3,
    }
}

/// A mode and its number determine each other.
pub proof fn modes_are_numbered(mode: GameMode, code: i32)
    ensures
        mode.code() == mode_number(mode),
        GameMode::of_code(code) matches Some(m) ==> mode_number(m) == code,
        GameMode::of_code(code) is Some <==> 0 <= code <= 3,
        mode.code() == code ==> GameMode::of_code(code) == Some(mode),
{
}

/// The instant is not within a leap second.
pub open spec fn ordinary(t: UtcTime) -> bool {
    t.nanos < 1_000_000_000
}

/// The nanoseconds from the epoch to the instant.
pub open spec fn epoch_nanos(t: UtcTime) -> int {
    t.secs * 1_000_000_000 + t.nanos
}

/// `whole` is `n` in units of `unit`, the fraction cut off.
pub open spec fn whole_units(whole: int, n: int, unit: int) -> bool {
    if n >= 0 {
        whole * unit <= n < (whole + 1) * unit
    } else {
        (whole - 1) * unit < n <= whole * unit
    }
}

/// Differences of instants are those of their nanoseconds, in whole seconds or hours.
pub proof fn differences_are_in_nanoseconds(a: UtcTime, b: UtcTime)
    requires
        ordinary(a),
        ordinary(b),
    ensures
        nanos_between(a, b) == epoch_nanos(a) - epoch_nanos(b),
        whole_units(seconds_between(a, b), epoch_nanos(a) - epoch_nanos(b), 1_000_000_000),
        whole_units(hours_between(a, b), epoch_nanos(a) - epoch_nanos(b), 3_600_000_000_000),
        distance(a, b) >= 0,
        distance(a, b) == seconds_between(a, b) || distance(a, b) == -seconds_between(a, b),
{
}

/// Differences of instants count a leap second where, of the two times of day, the later lies
/// beyond it, and are otherwise those of seconds and nanoseconds; the other way round they are the
/// same with the other sign.
pub proof fn differences_count_leap_seconds(a: UtcTime, b: UtcTime)
    ensures
        ({
            let plain = epoch_nanos(a) - epoch_nanos(b);
            let (x, y) = (a.secs as int % 86_400, b.secs as int % 86_400);
            &&& x > y && !ordinary(b) ==> nanos_between(a, b) == plain + 1_000_000_000
            &&& x < y && !ordinary(a) ==> nanos_between(a, b) == plain - 1_000_000_000
            &&& x == y ==> nanos_between(a, b) == plain
            &&& x > y && ordinary(b) ==> nanos_between(a, b) == plain
            &&& x < y && ordinary(a) ==> nanos_between(a, b) == plain
        }),
        nanos_between(a, b) == -nanos_between(b, a),
        whole_units(seconds_between(a, b), nanos_between(a, b), 1_000_000_000),
        whole_units(hours_between(a, b), nanos_between(a, b), 3_600_000_000_000),
        distance(a, b) == distance(b, a),
{
}

/// The text that is written for an instant.
pub open spec fn written(t: UtcTime) -> Seq<char> {
    rfc3339_text(t.secs, t.nanos)
}

/// The instant that is read from a text, if one is.
pub open spec fn read_instant(text: Seq<char>) -> Option<UtcTime> {
    match rfc3339_instant(text) {
        Some((secs, nanos)) => if instant_ok(secs, nanos) {
            Some(UtcTime { secs, nanos })
        } else {
            None
        },
        None => None,
    }
}

/// Instants are written and read as RFC 3339 texts.
pub proof fn instants_are_texts(t: UtcTime, text: Seq<char>, default: UtcTime)
    ensures
        t.text() == written(t),
        instant_of(text) == read_instant(text),
        read_instant(text) matches Some(read) ==> instant_or(text, default) == read,
        read_instant(text) is None ==> instant_or(text, default) == default,
{
}

/// The bits are those of an IEEE 754 double that is not a number: the exponent is all ones and the
/// fraction is not zero.
pub open spec fn not_a_number(bits: u64) -> bool {
    (bits / 0x10_0000_0000_0000) % 0x800 == 0x7ff && bits % 0x10_0000_0000_0000 != 0
}

/// What a column keeps of a real value: the value, unless it is not a number.
pub open spec fn kept_real(r: Real) -> Option<Real> {
    if not_a_number(r.bits) {
        None
    } else {
        Some(r)
    }
}

/// A column keeps every number as it is.
pub proof fn columns_keep_numbers(r: Real)
    ensures
        r.stored() == kept_real(r),
{
    let bits = r.bits;
    assert((bits % 0x8000_0000_0000_0000 > 0x7ff0_0000_0000_0000) == ((bits
        / 0x10_0000_0000_0000) % 0x800 == 0x7ff && bits % 0x10_0000_0000_0000 != 0))
        by (bit_vector);
}

/// The characters are the same but for the case of an ASCII letter.
pub open spec fn same_letter(c: char, d: char) -> bool {
    ||| c == d
    ||| 'A' <= c && c <= 'Z' && d as int == c as int + 32
    ||| 'A' <= d && d <= 'Z' && c as int == d as int + 32
}

/// The texts are the same but for the case of ASCII letters.
pub open spec fn same_letters(a: Seq<char>, b: Seq<char>) -> bool {
    a.len() == b.len() && forall|i: int| 0 <= i < a.len() ==> same_letter(#[trigger] a[i], b[i])
}

/// Two names are taken for the same where they differ in ASCII case only.
pub proof fn names_are_compared_by_letters(a: Seq<char>, b: Seq<char>)
    ensures
        lower(a) == lower(b) <==> same_letters(a, b),
{
    if lower(a) == lower(b) {
        assert(lower(a).len() == lower(b).len());
        assert forall|i: int| 0 <= i < a.len() implies same_letter(#[trigger] a[i], b[i]) by {
            assert(lower(a)[i] == lower(b)[i]);
        }
    }
    if same_letters(a, b) {
        assert forall|i: int| 0 <= i < a.len() implies lower(a)[i] == lower(b)[i] by {
            assert(same_letter(a[i], b[i]));
        }
        assert(lower(a) =~= lower(b));
    }
}

/// The text is in lower case, of the same letters.
pub open spec fn lowered(low: Seq<char>, s: Seq<char>) -> bool {
    same_letters(low, s) && forall|i: int|
        0 <= i < low.len() ==> !('A' <= #[trigger] low[i] && low[i] <= 'Z')
}

/// Lower case is of the same letters, without a capital, and there is one such text only.
pub proof fn lower_case_is_plain(s: Seq<char>, low: Seq<char>)
    ensures
        lowered(lower(s), s),
        lowered(low, s) ==> low == lower(s),
{
    assert forall|i: int| 0 <= i < s.len() implies same_letter(#[trigger] lower(s)[i], s[i]) by {}
    if lowered(low, s) {
        assert forall|i: int| 0 <= i < s.len() implies low[i] == lower(s)[i] by {
            assert(same_letter(low[i], s[i]));
        }
        assert(low =~= lower(s));
    }
}

/// The text comes before another: where they first differ, it has the smaller character, or it
/// ends there.
pub open spec fn comes_before(a: Seq<char>, b: Seq<char>) -> bool {
    exists|k: int| #[trigger] differ_at(a, b, k) && (k == a.len() || a[k] < b[k])
}

/// The texts agree up to `k`, where the second goes on.
pub open spec fn differ_at(a: Seq<char>, b: Seq<char>, k: int) -> bool {
    0 <= k <= a.len() && k < b.len() && forall|i: int| 0 <= i < k ==> #[trigger] a[i] == b[i]
}

/// Texts are compared by their first difference.
pub proof fn texts_are_compared_by_first_difference(a: Seq<char>, b: Seq<char>)
    ensures
        text_lt(a, b) <==> comes_before(a, b),
    decreases a.len(),
{
    if b.len() > 0 && a.len() > 0 && a[0] == b[0] {
        let (x, y) = (a.drop_first(), b.drop_first());
        texts_are_compared_by_first_difference(x, y);
        if comes_before(x, y) {
            let k = choose|k: int| #[trigger] differ_at(x, y, k) && (k == x.len() || x[k] < y[k]);
            assert forall|i: int| 0 <= i < k + 1 implies #[trigger] a[i] == b[i] by {
                if i > 0 {
                    assert(x[i - 1] == y[i - 1]);
                }
            }
            assert(differ_at(a, b, k + 1));
        }
        if comes_before(a, b) {
            let k = choose|k: int| #[trigger] differ_at(a, b, k) && (k == a.len() || a[k] < b[k]);
            assert forall|i: int| 0 <= i < k - 1 implies #[trigger] x[i] == y[i] by {
                assert(a[i + 1] == b[i + 1]);
            }
            assert(differ_at(x, y, k - 1));
        }
    } else if b.len() > 0 {
        assert(differ_at(a, b, 0));
        if comes_before(a, b) {
            let k = choose|k: int| #[trigger] differ_at(a, b, k) && (k == a.len() || a[k] < b[k]);
            if a.len() > 0 && k > 0 {
                assert(a[0] == b[0]);
            }
        }
    }
}

/// The place of the first row that satisfies `p`.
pub proof fn first_place<V>(s: Seq<V>, p: spec_fn(V) -> bool) -> (i: int)
    ensures
        first_where(s, p) is Some ==> {
            &&& 0 <= i < s.len()
            &&& p(s[i])
            &&& s[i] == first_where(s, p)->0
            &&& forall|j: int| 0 <= j < i ==> !p(#[trigger] s[j])
        },
        first_where(s, p) is None ==> forall|j: int| 0 <= j < s.len() ==> !p(#[trigger] s[j]),
    decreases s.len(),
{
    if s.len() == 0 {
        reveal(Seq::filter);
        0
    } else {
        let (rest, last) = (s.drop_last(), s.last());
        assert(s =~= rest.push(last));
        filter_push(rest, last, p);
        let i = first_place(rest, p);
        if first_where(rest, p) is Some {
            assert(forall|j: int| 0 <= j < i ==> rest[j] == s[j]);
            i
        } else {
            assert forall|j: int| 0 <= j < s.len() - 1 implies !p(#[trigger] s[j]) by {
                assert(rest[j] == s[j]);
            }
            filter_none(rest, p);
            s.len() - 1
        }
    }
}

/// The place of the last row that satisfies `p`.
pub proof fn last_place<V>(s: Seq<V>, p: spec_fn(V) -> bool) -> (i: int)
    ensures
        last_where(s, p) is Some ==> {
            &&& 0 <= i < s.len()
            &&& p(s[i])
            &&& s[i] == last_where(s, p)->0
            &&& forall|j: int| i < j < s.len() ==> !p(#[trigger] s[j])
        },
        last_where(s, p) is None ==> forall|j: int| 0 <= j < s.len() ==> !p(#[trigger] s[j]),
    decreases s.len(),
{
    if s.len() == 0 {
        reveal(Seq::filter);
        0
    } else {
        let (rest, last) = (s.drop_last(), s.last());
        assert(s =~= rest.push(last));
        filter_push(rest, last, p);
        let i = last_place(rest, p);
        if p(last) {
            s.len() - 1
        } else {
            assert forall|j: int|
                0 <= j < s.len() && (last_where(rest, p) is Some ==> i < j) implies !p(
                #[trigger] s[j],
            ) by {
                if j < rest.len() {
                    assert(!p(rest[j]));
                }
            }
            i
        }
    }
}

} // verus!
