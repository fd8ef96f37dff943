//! What holds of texts, tables and sorting, in terms of what goes in and what comes out.
use vstd::prelude::*;
use vstd::utf8::encode_utf8;

use crate::keyed::KeyedMap;
use crate::sorting::is_sorted_form;
use crate::sorting::lemma_rearranged;
use crate::sorting::sort;
use crate::sorting::Ranked;
use crate::text::contains;
use crate::text::copy_all;
use crate::text::copy_opt;
use crate::text::cut_at;
use crate::text::decimal;
use crate::text::is_blank;
use crate::text::is_white_space;
use crate::text::join;
use crate::text::not_after;
use crate::text::same;
use crate::text::strip_end;
use crate::text::strip_prefix;
use crate::text::stripped_end;
use crate::text::texts;
use crate::text::to_decimal;
use crate::text::trim;
use crate::text::trimmed;
use crate::text::trimmed_end;
use crate::text::trimmed_start;
use crate::text::until;
use crate::text::white_space;

verus! {

// ---------------------------------------------------------------------------
// Text
// ---------------------------------------------------------------------------

/// Trimming takes white space from both ends and nothing else: what is left begins and ends with
/// something else, and stands in the text between white space.
pub proof fn law_trimming_takes_white_space_from_the_ends(s: Seq<char>) -> (r: (int, int))
    ensures
        0 <= r.0 <= r.1 <= s.len(),
        trimmed(s) == s.subrange(r.0, r.1),
        forall|i: int| 0 <= i < r.0 ==> white_space(#[trigger] s[i]),
        forall|i: int| r.1 <= i < s.len() ==> white_space(#[trigger] s[i]),
        r.0 < r.1 ==> !white_space(s[r.0]) && !white_space(s[r.1 - 1]),
{
    let a = lemma_trimmed_start(s);
    let t = s.skip(a);
    let n = lemma_trimmed_end(t);
    assert(t.take(n) =~= s.subrange(a, a + n));
    assert forall|i: int| a + n <= i < s.len() implies white_space(#[trigger] s[i]) by {
        assert(t[i - a] == s[i]);
    }
    if n > 0 {
        assert(t[n - 1] == s[a + n - 1]);
        if a == s.len() {
            assert(t.len() == 0);
        }
    }
    (a, a + n)
}

proof fn lemma_trimmed_start(s: Seq<char>) -> (a: int)
    ensures
        0 <= a <= s.len(),
        trimmed_start(s) == s.skip(a),
        forall|i: int| 0 <= i < a ==> white_space(#[trigger] s[i]),
        a < s.len() ==> !white_space(s[a]),
    decreases s.len(),
{
    if s.len() > 0 && white_space(s[0]) {
        let b = lemma_trimmed_start(s.drop_first());
        assert(s.drop_first().skip(b) =~= s.skip(b + 1));
        assert forall|i: int| 0 <= i < b + 1 implies white_space(#[trigger] s[i]) by {
            if i > 0 {
                assert(s.drop_first()[i - 1] == s[i]);
            }
        }
        b + 1
    } else {
        assert(s.skip(0) =~= s);
        0
    }
}

proof fn lemma_trimmed_end(s: Seq<char>) -> (n: int)
    ensures
        0 <= n <= s.len(),
        trimmed_end(s) == s.take(n),
        forall|i: int| n <= i < s.len() ==> white_space(#[trigger] s[i]),
        n > 0 ==> !white_space(s[n - 1]),
    decreases s.len(),
{
    if s.len() > 0 && white_space(s.last()) {
        let n = lemma_trimmed_end(s.drop_last());
        assert(s.drop_last().take(n) =~= s.take(n));
        assert forall|i: int| n <= i < s.len() implies white_space(#[trigger] s[i]) by {
            if i < s.len() - 1 {
                assert(s.drop_last()[i] == s[i]);
            }
        }
        n
    } else {
        assert(s.take(s.len() as int) =~= s);
        s.len() as int
    }
}

/// White space is the blank, the control characters from tab to carriage return, and the spaces and
/// separators of Unicode; no printable ASCII character is.
pub proof fn law_white_space(c: char)
    ensures
        white_space(' ') && white_space('\t') && white_space('\n') && white_space('\r'),
        white_space('\u{b}') && white_space('\u{c}') && white_space('\u{85}') && white_space(
            '\u{a0}',
        ),
        white_space('\u{1680}') && white_space('\u{2000}') && white_space('\u{200a}')
            && white_space('\u{2028}') && white_space('\u{2029}') && white_space('\u{202f}')
            && white_space('\u{205f}') && white_space('\u{3000}'),
        '!' <= c <= '~' ==> !white_space(c),
        c < '\t' ==> !white_space(c),
        '\u{3000}' < c ==> !white_space(c),
{
}

/// Numbers are written in decimal: a digit at a time, the last digit last.
pub proof fn law_numbers_are_written_in_decimal(n: nat, d: nat)
    requires
        d < 10,
    ensures
        n > 0 ==> decimal(10 * n + d) == decimal(n).push((48 + d) as char),
        decimal(d) == seq![(48 + d) as char],
        decimal(0) == "0"@,
        decimal(7) == "7"@,
{
    reveal_strlit("0");
    reveal_strlit("7");
    assert(decimal(0) =~= "0"@);
    assert(decimal(7) =~= "7"@);
    if n > 0 {
        assert((10 * n + d) / 10 == n);
        assert((10 * n + d) % 10 == d);
    }
}

/// What a call of `trim` gives back is the text without the white space around it.
pub proof fn law_trim(s: &str, r: &str, empty: bool, c: char, white: bool) -> (at: (int, int))
    requires
        call_ensures(trim, (s,), r),
        call_ensures(is_blank, (s,), empty),
        call_ensures(is_white_space, (c,), white),
    ensures
        0 <= at.0 <= at.1 <= s@.len(),
        r@ == s@.subrange(at.0, at.1),
        forall|i: int| 0 <= i < at.0 ==> white_space(#[trigger] s@[i]),
        forall|i: int| at.1 <= i < s@.len() ==> white_space(#[trigger] s@[i]),
        at.0 < at.1 ==> !white_space(s@[at.0]) && !white_space(s@[at.1 - 1]),
        empty <==> r@.len() == 0,
        c == ' ' || c == '\t' || c == '\n' || c == '\r' ==> white,
        '!' <= c <= '~' ==> !white,
{
    crate::text::lemma_trimmed_blank(s@);
    law_trimming_takes_white_space_from_the_ends(s@)
}

/// Text is cut at the first of a character, and loses all of a character at its end.
pub proof fn law_text_is_cut(s: &str, c: char, head: &str, rest: &str)
    requires
        call_ensures(cut_at, (s, c), head),
        call_ensures(strip_end, (s, c), rest),
    ensures
        head@.is_prefix_of(s@),
        forall|i: int| 0 <= i < head@.len() ==> #[trigger] head@[i] != c,
        head@.len() < s@.len() ==> s@[head@.len() as int] == c,
        rest@.is_prefix_of(s@),
        forall|i: int| rest@.len() <= i < s@.len() ==> #[trigger] s@[i] == c,
        rest@.len() > 0 ==> rest@.last() != c,
{
    lemma_until(s@, c);
    lemma_stripped(s@, c);
}

proof fn lemma_until(s: Seq<char>, c: char)
    ensures
        until(s, c).is_prefix_of(s),
        forall|i: int| 0 <= i < until(s, c).len() ==> #[trigger] until(s, c)[i] != c,
        until(s, c).len() < s.len() ==> s[until(s, c).len() as int] == c,
    decreases s.len(),
{
    if s.len() > 0 && s[0] != c {
        lemma_until(s.skip(1), c);
        let u = until(s, c);
        let t = until(s.skip(1), c);
        assert(u =~= s.take(u.len() as int)) by {
            assert(t =~= s.skip(1).take(t.len() as int));
        }
        assert forall|i: int| 0 <= i < u.len() implies #[trigger] u[i] != c by {
            if i > 0 {
                assert(u[i] == t[i - 1]);
            }
        }
    }
}

proof fn lemma_stripped(s: Seq<char>, c: char)
    ensures
        stripped_end(s, c).is_prefix_of(s),
        forall|i: int| stripped_end(s, c).len() <= i < s.len() ==> #[trigger] s[i] == c,
        stripped_end(s, c).len() > 0 ==> stripped_end(s, c).last() != c,
    decreases s.len(),
{
    if s.len() > 0 && s.last() == c {
        let t = s.drop_last();
        lemma_stripped(t, c);
        let r = stripped_end(s, c);
        assert(r =~= s.take(r.len() as int)) by {
            assert(r =~= t.take(r.len() as int));
        }
        assert forall|i: int| r.len() <= i < s.len() implies #[trigger] s[i] == c by {
            if i < t.len() {
                assert(t[i] == s[i]);
            }
        }
    } else {
        assert(s =~= s.take(s.len() as int));
    }
}

/// Text is joined, compared, found in a list and copied as it stands.
pub proof fn law_text_is_handled_as_it_stands(
    a: &str,
    b: &str,
    joined: String,
    equal: bool,
    list: Vec<String>,
    found: bool,
    copy: Vec<String>,
    one: Option<String>,
    other: Option<String>,
    rest: Option<&str>,
)
    requires
        call_ensures(join, (a, b), joined),
        call_ensures(same, (a, b), equal),
        call_ensures(contains, (&list, a), found),
        call_ensures(copy_all, (&list,), copy),
        call_ensures(copy_opt, (&one,), other),
        call_ensures(strip_prefix, (a, b), rest),
    ensures
        joined@.len() == a@.len() + b@.len(),
        a@.is_prefix_of(joined@),
        joined@.skip(a@.len() as int) == b@,
        equal <==> a@ == b@,
        found <==> exists|i: int| 0 <= i < list@.len() && #[trigger] list@[i]@ == a@,
        copy@ == list@,
        other == one,
        rest is Some <==> b@.is_prefix_of(a@),
        rest is Some ==> a@ == b@ + rest->0@,
{
    assert(joined@.skip(a@.len() as int) =~= b@);
    assert(a@ =~= joined@.take(a@.len() as int));
    if found {
        let i = choose|i: int| 0 <= i < texts(list@).len() && texts(list@)[i] == a@;
        assert(list@[i]@ == a@);
    }
    if exists|i: int| 0 <= i < list@.len() && #[trigger] list@[i]@ == a@ {
        let i = choose|i: int| 0 <= i < list@.len() && #[trigger] list@[i]@ == a@;
        assert(texts(list@)[i] == a@);
    }
    if rest is Some {
        assert(a@ =~= b@ + a@.skip(b@.len() as int));
    }
}

/// Text is ordered by its bytes: where two texts first differ, the smaller byte comes first, and a
/// text comes before what it begins.
pub proof fn law_text_is_ordered_by_its_bytes(a: &str, b: &str, r: bool, n: int)
    requires
        call_ensures(not_after, (a, b), r),
        0 <= n <= encode_utf8(a@).len(),
        n <= encode_utf8(b@).len(),
        encode_utf8(a@).take(n) == encode_utf8(b@).take(n),
    ensures
        n == encode_utf8(a@).len() ==> r,
        n == encode_utf8(b@).len() && n < encode_utf8(a@).len() ==> !r,
        n < encode_utf8(a@).len() && n < encode_utf8(b@).len() && encode_utf8(a@)[n] < encode_utf8(
            b@,
        )[n] ==> r,
        n < encode_utf8(a@).len() && n < encode_utf8(b@).len() && encode_utf8(a@)[n] > encode_utf8(
            b@,
        )[n] ==> !r,
{
    lemma_bytes(encode_utf8(a@), encode_utf8(b@), n);
}

proof fn lemma_bytes(a: Seq<u8>, b: Seq<u8>, n: int)
    requires
        0 <= n <= a.len(),
        n <= b.len(),
        a.take(n) == b.take(n),
    ensures
        n == a.len() ==> crate::text::bytes_le(a, b),
        n == b.len() && n < a.len() ==> !crate::text::bytes_le(a, b),
        n < a.len() && n < b.len() && a[n] < b[n] ==> crate::text::bytes_le(a, b),
        n < a.len() && n < b.len() && a[n] > b[n] ==> !crate::text::bytes_le(a, b),
    decreases n,
{
    if n > 0 {
        assert(a.take(n)[0] == a[0] && b.take(n)[0] == b[0]);
        assert(a.drop_first().take(n - 1) =~= a.take(n).drop_first());
        assert(b.drop_first().take(n - 1) =~= b.take(n).drop_first());
        lemma_bytes(a.drop_first(), b.drop_first(), n - 1);
    }
}

/// A call of `to_decimal` writes a number digit by digit: its last digit last, and what is left of
/// it before that.
pub proof fn law_to_decimal(n: u64, r: String, tenth: String)
    requires
        call_ensures(to_decimal, (n,), r),
        call_ensures(to_decimal, (n / 10,), tenth),
    ensures
        n < 10 ==> r@ == seq![(48 + n) as char],
        n >= 10 ==> r@ == tenth@.push((48 + n % 10) as char),
{
}

// ---------------------------------------------------------------------------
// Tables and sorting
// ---------------------------------------------------------------------------

/// A table gives back what was entered last under a name, and nothing once it was taken out; other
/// names are not touched.
pub proof fn law_tables_give_back_what_was_entered(
    a: &mut KeyedMap<String, u128>,
    b: &mut KeyedMap<String, u128>,
    c: &mut KeyedMap<String, u128>,
    k: String,
    v: u128,
    r: Option<u128>,
    got: Option<&u128>,
    there: bool,
    bound: u128,
    other: Seq<char>,
)
    requires
        call_ensures(KeyedMap::<String, u128>::insert, (a, k, v), ()),
        call_ensures(KeyedMap::<String, u128>::remove, (b, &k), r),
        call_ensures(KeyedMap::<String, u128>::keep_above, (c, bound), ()),
        call_ensures(KeyedMap::<String, u128>::get, (&*old(a), &k), got),
        call_ensures(KeyedMap::<String, u128>::contains_key, (&*old(a), &k), there),
        other != k@,
    ensures
        final(a)@.contains_key(k@) && final(a)@[k@] == v,
        final(a)@.contains_key(other) == old(a)@.contains_key(other),
        final(a)@[other] == old(a)@[other],
        !final(b)@.contains_key(k@),
        r is Some <==> old(b)@.contains_key(k@),
        r is Some ==> r->0 == old(b)@[k@],
        final(b)@.contains_key(other) == old(b)@.contains_key(other),
        final(c)@.contains_key(other) <==> old(c)@.contains_key(other) && old(c)@[other] > bound,
        there <==> old(a)@.contains_key(k@),
        got is Some <==> there,
        got is Some ==> *got->0 == old(a)@[k@],
{
}

/// Sorting keeps what is there and puts it in order.
pub proof fn law_sorting_keeps_what_is_there<T: Ranked>(v: Vec<T>, r: Vec<T>, x: T, i: int, j: int)
    requires
        call_ensures(sort::<T>, (v,), r),
        0 <= i < j < r@.len(),
    ensures
        r@.len() == v@.len(),
        r@.contains(x) <==> v@.contains(x),
        r@[i].ranks(&r@[j]),
{
    assert(is_sorted_form(r@, v@));
    lemma_rearranged(r@, v@);
}

} // verus!
