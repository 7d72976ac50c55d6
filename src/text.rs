//! Character-level scanning primitives shared by the pseudo-file parsers.
use vstd::prelude::*;
use vstd::std_specs::iter::IteratorSpec;

verus! {

/// The classes of characters that a field value can be made of.
#[derive(Clone, Copy, Debug, PartialEq, Eq, Structural)]
pub enum CharClass {
    /// ASCII whitespace.
    Space,
    /// `0` to `9`.
    Decimal,
    /// `0` to `9`, `a` to `f` and `A` to `F`.
    Hex,
    /// Anything but a line feed.
    NotNewline,
}

pub open spec fn is_space(c: char) -> bool {
    c == ' ' || c == '\t' || c == '\n' || c == '\r' || c == '\x0B' || c == '\x0C'
}

pub open spec fn is_decimal(c: char) -> bool {
    '0' <= c && c <= '9'
}

pub open spec fn is_hex(c: char) -> bool {
    is_decimal(c) || ('a' <= c && c <= 'f') || ('A' <= c && c <= 'F')
}

pub open spec fn in_class(c: char, class: CharClass) -> bool {
    match class {
        CharClass::Space => is_space(c),
        CharClass::Decimal => is_decimal(c),
        CharClass::Hex => is_hex(c),
        CharClass::NotNewline => c != '\n',
    }
}

/// Value of a hexadecimal digit.
pub open spec fn hex_value(c: char) -> u8 {
    if is_decimal(c) {
        (c as u32 - '0' as u32) as u8
    } else if 'a' <= c && c <= 'f' {
        (c as u32 - 'a' as u32 + 10) as u8
    } else if 'A' <= c && c <= 'F' {
        (c as u32 - 'A' as u32 + 10) as u8
    } else {
        0
    }
}

/// Value of a string of decimal digits.
pub open spec fn decimal_value(s: Seq<char>) -> nat
    decreases s.len(),
{
    if s.len() == 0 {
        0
    } else {
        decimal_value(s.drop_last()) * 10 + (s.last() as u32 - '0' as u32) as nat
    }
}

/// End of the longest run of `class` characters that starts at `i`.
pub open spec fn run_end(t: Seq<char>, i: int, class: CharClass) -> int
    decreases t.len() - i,
{
    if 0 <= i < t.len() && in_class(t[i], class) {
        run_end(t, i + 1, class)
    } else {
        i
    }
}

/// `word` stands in `t` from position `p` on.
pub open spec fn word_at(t: Seq<char>, p: int, word: Seq<char>) -> bool {
    0 <= p && p + word.len() <= t.len() && t.subrange(p, p + word.len()) == word
}

pub open spec fn starts_with(t: Seq<char>, word: Seq<char>) -> bool {
    word_at(t, 0, word)
}

pub open spec fn ends_with(t: Seq<char>, word: Seq<char>) -> bool {
    word_at(t, t.len() - word.len(), word)
}

/// Where the value of a `key` that stands at `p` starts: after the blanks
/// that follow the key.
pub open spec fn value_start(t: Seq<char>, p: int, key: Seq<char>) -> int {
    run_end(t, p + key.len(), CharClass::Space)
}

pub open spec fn value_end(t: Seq<char>, p: int, key: Seq<char>, class: CharClass) -> int {
    run_end(t, value_start(t, p, key), class)
}

/// A field stands at `p`: the key, blanks, a non-empty run of `class`
/// characters, blanks, then the unit.
pub open spec fn field_at(t: Seq<char>, p: int, key: Seq<char>, class: CharClass, unit: Seq<char>) -> bool {
    &&& word_at(t, p, key)
    &&& value_end(t, p, key, class) > value_start(t, p, key)
    &&& word_at(t, run_end(t, value_end(t, p, key, class), CharClass::Space), unit)
}

/// The leftmost field of the text.
pub open spec fn first_field_at(t: Seq<char>, p: int, key: Seq<char>, class: CharClass, unit: Seq<char>) -> bool {
    field_at(t, p, key, class, unit) && forall|q: int| 0 <= q < p ==> !field_at(t, q, key, class, unit)
}

/// The value of the leftmost field of the text, if there is one.
pub open spec fn field_value(t: Seq<char>, key: Seq<char>, class: CharClass, unit: Seq<char>) -> Option<Seq<char>> {
    if exists|p: int| first_field_at(t, p, key, class, unit) {
        let p = choose|p: int| first_field_at(t, p, key, class, unit);
        Some(t.subrange(value_start(t, p, key), value_end(t, p, key, class)))
    } else {
        None
    }
}

/// The leftmost field's decimal value, where it fits under `max`.
pub open spec fn field_number(t: Seq<char>, key: Seq<char>, unit: Seq<char>, max: nat) -> Option<nat> {
    match field_value(t, key, CharClass::Decimal, unit) {
        Some(v) => if decimal_value(v) <= max {
            Some(decimal_value(v))
        } else {
            None
        },
        None => None,
    }
}

/// The characters of a string, in order.
pub fn chars_of(s: &str) -> (r: Vec<char>)
    ensures
        r@ == s@,
{
    broadcast use vstd::string::axiom_spec_iter, vstd::string::next_postcondition;

    let mut it = s.chars();
    let mut r: Vec<char> = Vec::new();
    loop
        invariant
            it.obeys_prophetic_iter_laws(),
            r.len() <= s@.len(),
            r@ == s@.subrange(0, r.len() as int),
            it.remaining() == s@.subrange(r.len() as int, s@.len() as int),
        ensures
            r@ == s@,
        decreases s@.len() - r.len(),
    {
        let ghost before = it;
        match it.next() {
            Some(c) => {
                r.push(c);
            },
            None => {
                assert(before.remaining().len() == 0);
                assert(r.len() == s@.len());
                assert(r@ =~= s@);
                break ;
            },
        }
    }
    r
}

/// Relies on `String`'s `FromIterator<char>`: the string of these characters.
#[verifier::external_body]
pub(crate) fn string_of(v: &Vec<char>) -> (r: String)
    ensures
        r@ == v@,
{
    v.iter().collect()
}

pub fn class_has(c: char, class: CharClass) -> (r: bool)
    ensures
        r == in_class(c, class),
{
    match class {
        CharClass::Space => c == ' ' || c == '\t' || c == '\n' || c == '\r' || c == '\x0B' || c
            == '\x0C',
        CharClass::Decimal => '0' <= c && c <= '9',
        CharClass::Hex => ('0' <= c && c <= '9') || ('a' <= c && c <= 'f') || ('A' <= c && c
            <= 'F'),
        CharClass::NotNewline => c != '\n',
    }
}

pub fn hex_digit(c: char) -> (r: u8)
    ensures
        r == hex_value(c),
        r < 16,
{
    if '0' <= c && c <= '9' {
        (c as u32 - '0' as u32) as u8
    } else if 'a' <= c && c <= 'f' {
        (c as u32 - 'a' as u32 + 10) as u8
    } else if 'A' <= c && c <= 'F' {
        (c as u32 - 'A' as u32 + 10) as u8
    } else {
        0
    }
}

/// End of the run of `class` characters that starts at `i`.
pub fn skip_run(t: &Vec<char>, i: usize, class: CharClass) -> (r: usize)
    ensures
        r as int == run_end(t@, i as int, class),
        i <= t.len() ==> i <= r <= t.len(),
        i > t.len() ==> r == i,
{
    let mut j = i;
    while j < t.len() && class_has(t[j], class)
        invariant
            i <= j,
            i <= t.len() ==> j <= t.len(),
            i > t.len() ==> j == i,
            run_end(t@, j as int, class) == run_end(t@, i as int, class),
        decreases t.len() - j,
    {
        j = j + 1;
    }
    j
}

/// Whether `word` stands in `t` at `p`.
pub fn word_matches(t: &Vec<char>, p: usize, word: &Vec<char>) -> (r: bool)
    ensures
        r == word_at(t@, p as int, word@),
{
    if p > t.len() || word.len() > t.len() - p {
        return false;
    }
    let mut k: usize = 0;
    while k < word.len()
        invariant
            p + word.len() <= t.len(),
            k <= word.len(),
            forall|m: int| 0 <= m < k ==> t@[p + m] == word@[m],
        decreases word.len() - k,
    {
        if t[p + k] != word[k] {
            assert(t@.subrange(p as int, p + word.len())[k as int] != word@[k as int]);
            return false;
        }
        k = k + 1;
    }
    assert(t@.subrange(p as int, p + word.len()) =~= word@);
    true
}

/// Bounds of the value of the leftmost field of the text, if there is one.
pub fn find_field(t: &Vec<char>, key: &Vec<char>, class: CharClass, unit: &Vec<char>) -> (r: Option<(usize, usize)>)
    ensures
        match r {
            Some(b) => exists|p: int|
                first_field_at(t@, p, key@, class, unit@) && b.0 == value_start(t@, p, key@) && b.1
                    == value_end(t@, p, key@, class),
            None => forall|p: int| !field_at(t@, p, key@, class, unit@),
        },
        match r {
            Some(b) => b.0 <= b.1 <= t.len() && field_value(t@, key@, class, unit@) == Some(
                t@.subrange(b.0 as int, b.1 as int),
            ),
            None => field_value(t@, key@, class, unit@) is None,
        },
{
    let mut p: usize = 0;
    while p < t.len()
        invariant
            p <= t.len(),
            forall|q: int| 0 <= q < p ==> !field_at(t@, q, key@, class, unit@),
        decreases t.len() - p,
    {
        if word_matches(t, p, key) {
            let s = skip_run(t, p + key.len(), CharClass::Space);
            let e = skip_run(t, s, class);
            if e > s {
                let u = skip_run(t, e, CharClass::Space);
                if word_matches(t, u, unit) {
                    assert(first_field_at(t@, p as int, key@, class, unit@));
                    proof {
                        let c = choose|c: int| first_field_at(t@, c, key@, class, unit@);
                        assert(c == p) by {
                            if c < p {
                                assert(!field_at(t@, c, key@, class, unit@));
                            }
                            if c > p {
                                assert(!field_at(t@, p as int, key@, class, unit@));
                            }
                        }
                    }
                    return Some((s, e));
                }
            }
        }
        p = p + 1;
    }
    assert forall|q: int| !field_at(t@, q, key@, class, unit@) by {
        if q >= t.len() && word_at(t@, q, key@) {
            assert(run_end(t@, q + key@.len(), CharClass::Space) == q + key@.len());
            assert(run_end(t@, q + key@.len(), class) == q + key@.len());
        }
    }
    None
}

/// The decimal number written by `t[s..e]`, where it is at most `max`.
pub fn parse_decimal(t: &Vec<char>, s: usize, e: usize, max: u64) -> (r: Option<u64>)
    requires
        s <= e <= t.len(),
        forall|i: int| s <= i < e ==> is_decimal(t@[i]),
    ensures
        r == (if decimal_value(t@.subrange(s as int, e as int)) <= max {
            Some(decimal_value(t@.subrange(s as int, e as int)) as u64)
        } else {
            None
        }),
{
    let mut acc: u64 = 0;
    let mut over = false;
    let mut i = s;
    assert(t@.subrange(s as int, s as int) =~= Seq::<char>::empty());
    while i < e
        invariant
            s <= i <= e <= t.len(),
            forall|k: int| s <= k < e ==> is_decimal(t@[k]),
            over ==> decimal_value(t@.subrange(s as int, i as int)) > max,
            !over ==> acc == decimal_value(t@.subrange(s as int, i as int)) && acc <= max,
        decreases e - i,
    {
        let d = (t[i] as u32 - '0' as u32) as u64;
        assert(t@.subrange(s as int, i + 1).drop_last() =~= t@.subrange(s as int, i as int));
        let ghost prev = decimal_value(t@.subrange(s as int, i as int));
        assert(decimal_value(t@.subrange(s as int, i + 1)) == prev * 10 + d);
        if !over {
            if d > max || acc > (max - d) / 10 {
                over = true;
                assert(prev * 10 + d > max) by (nonlinear_arith)
                    requires
                        prev == acc,
                        d > max || acc > (max - d) / 10,
                        d <= 9,
                ;
            } else {
                assert(acc * 10 + d <= max) by (nonlinear_arith)
                    requires
                        d <= max,
                        acc <= (max - d) / 10,
                ;
                acc = acc * 10 + d;
            }
        } else {
            assert(prev * 10 + d > max) by (nonlinear_arith)
                requires
                    prev > max,
            ;
        }
        i = i + 1;
    }
    if over {
        None
    } else {
        Some(acc)
    }
}

/// The pieces of `s` between occurrences of `sep`, as `str::split` gives them.
pub open spec fn split_on(s: Seq<char>, sep: char) -> Seq<Seq<char>>
    decreases s.len(),
{
    if s.len() == 0 {
        seq![Seq::empty()]
    } else {
        let r = split_on(s.drop_last(), sep);
        if s.last() == sep {
            r.push(Seq::empty())
        } else {
            r.update(r.len() - 1, r.last().push(s.last()))
        }
    }
}

pub proof fn lemma_split_nonempty(s: Seq<char>, sep: char)
    ensures
        split_on(s, sep).len() >= 1,
    decreases s.len(),
{
    if s.len() > 0 {
        lemma_split_nonempty(s.drop_last(), sep);
    }
}

pub open spec fn all_in_class(s: Seq<char>, class: CharClass) -> bool {
    forall|i: int| 0 <= i < s.len() ==> in_class(#[trigger] s[i], class)
}

/// The integer that `s` writes, as `str::parse` reads it: an optional sign
/// (a minus only where negative values are allowed) and at least one digit.
pub open spec fn integer_value(s: Seq<char>, signed: bool) -> Option<int> {
    if s.len() > 0 && (s[0] == '+' || (signed && s[0] == '-')) {
        let rest = s.drop_first();
        if rest.len() > 0 && all_in_class(rest, CharClass::Decimal) {
            Some(
                if s[0] == '-' {
                    -decimal_value(rest)
                } else {
                    decimal_value(rest) as int
                },
            )
        } else {
            None
        }
    } else if s.len() > 0 && all_in_class(s, CharClass::Decimal) {
        Some(decimal_value(s) as int)
    } else {
        None
    }
}

/// The integer that `s` writes, where it lies in `[lo, hi]`.
pub open spec fn integer_in(s: Seq<char>, lo: int, hi: int) -> Option<int> {
    match integer_value(s, lo < 0) {
        Some(v) => if lo <= v <= hi {
            Some(v)
        } else {
            None
        },
        None => None,
    }
}

/// Bounds of each piece of `t` between occurrences of `sep`.
pub fn split_bounds(t: &Vec<char>, sep: char) -> (r: Vec<(usize, usize)>)
    ensures
        r.len() == split_on(t@, sep).len(),
        forall|k: int|
            #![trigger r[k]]
            0 <= k < r.len() ==> r[k].0 <= r[k].1 <= t.len() && t@.subrange(
                r[k].0 as int,
                r[k].1 as int,
            ) == split_on(t@, sep)[k],
{
    let mut r: Vec<(usize, usize)> = Vec::new();
    let mut start: usize = 0;
    let mut i: usize = 0;
    assert(t@.subrange(0, 0) =~= Seq::<char>::empty());
    while i < t.len()
        invariant
            start <= i <= t.len(),
            r.len() + 1 == split_on(t@.subrange(0, i as int), sep).len(),
            split_on(t@.subrange(0, i as int), sep).last() == t@.subrange(start as int, i as int),
            forall|k: int|
                #![trigger r[k]]
                0 <= k < r.len() ==> r[k].0 <= r[k].1 <= i && t@.subrange(
                    r[k].0 as int,
                    r[k].1 as int,
                ) == split_on(t@.subrange(0, i as int), sep)[k],
        decreases t.len() - i,
    {
        let ghost before = split_on(t@.subrange(0, i as int), sep);
        let ghost old_r = r@;
        let ghost old_start = start;
        let ghost old_i = i;
        proof {
            lemma_split_nonempty(t@.subrange(0, i as int), sep);
        }
        assert(t@.subrange(0, i + 1).drop_last() =~= t@.subrange(0, i as int));
        assert(t@.subrange(0, i + 1).last() == t@[i as int]);
        let ghost next = t@.subrange(0, i + 1);
        if t[i] == sep {
            assert(split_on(next, sep) == before.push(Seq::empty()));
            r.push((start, i));
            start = i + 1;
            assert(t@.subrange(start as int, i + 1) =~= Seq::<char>::empty());
        } else {
            assert(split_on(next, sep) == before.update(
                before.len() - 1,
                before.last().push(t@[i as int]),
            ));
            assert(t@.subrange(start as int, i + 1) =~= t@.subrange(start as int, i as int).push(
                t@[i as int],
            ));
        }
        i = i + 1;
        let ghost after = split_on(t@.subrange(0, i as int), sep);
        assert(after == split_on(next, sep));
        assert forall|k: int| 0 <= k < r.len() implies #[trigger] r[k].0 <= r[k].1 <= i
            && t@.subrange(r[k].0 as int, r[k].1 as int) == after[k] by {
            if k < old_r.len() {
                assert(r[k] == old_r[k]);
                assert(old_r[k].0 <= old_r[k].1 <= old_i);
                assert(t@.subrange(old_r[k].0 as int, old_r[k].1 as int) == before[k]);
                assert(after[k] == before[k]);
            } else {
                assert(r[k] == (old_start, old_i));
                assert(after[k] == before[k]);
                assert(before[k] == t@.subrange(old_start as int, old_i as int));
            }
        }
    }
    proof {
        lemma_split_nonempty(t@, sep);
    }
    let ghost old_r = r@;
    assert(t@.subrange(0, t.len() as int) =~= t@);
    let ghost whole = split_on(t@, sep);
    assert(whole.last() == t@.subrange(start as int, i as int));
    r.push((start, t.len()));
    assert forall|k: int| 0 <= k < r.len() implies #[trigger] r[k].0 <= r[k].1 <= t.len()
        && t@.subrange(r[k].0 as int, r[k].1 as int) == whole[k] by {
        if k < old_r.len() {
            assert(r[k] == old_r[k]);
            assert(old_r[k].0 <= old_r[k].1 <= t.len());
        } else {
            assert(r[k] == (start, t.len()));
        }
    }
    r
}

/// Whether each of `t[s..e]` is of `class`.
pub fn all_of_class(t: &Vec<char>, s: usize, e: usize, class: CharClass) -> (r: bool)
    requires
        s <= e <= t.len(),
    ensures
        r == all_in_class(t@.subrange(s as int, e as int), class),
{
    let mut i = s;
    while i < e
        invariant
            s <= i <= e <= t.len(),
            forall|k: int| s <= k < i ==> in_class(t@[k], class),
        decreases e - i,
    {
        if !class_has(t[i], class) {
            assert(!in_class(t@.subrange(s as int, e as int)[i - s], class));
            return false;
        }
        i = i + 1;
    }
    assert forall|k: int| 0 <= k < e - s implies in_class(
        #[trigger] t@.subrange(s as int, e as int)[k],
        class,
    ) by {
        assert(in_class(t@[s + k], class));
    }
    true
}

/// The unsigned integer that `t[s..e]` writes, where it is at most `max`.
pub fn parse_unsigned(t: &Vec<char>, s: usize, e: usize, max: u64) -> (r: Option<u64>)
    requires
        s <= e <= t.len(),
    ensures
        match integer_in(t@.subrange(s as int, e as int), 0, max as int) {
            Some(v) => r == Some(v as u64),
            None => r is None,
        },
{
    let ghost w = t@.subrange(s as int, e as int);
    let mut from = s;
    if s < e && t[s] == '+' {
        from = s + 1;
        assert(w.drop_first() =~= t@.subrange(from as int, e as int));
    }
    if from == e || !all_of_class(t, from, e, CharClass::Decimal) {
        if s < e && t[s] != '+' {
            assert(w[0] == t@[s as int]);
        }
        return None;
    }
    assert(all_in_class(t@.subrange(from as int, e as int), CharClass::Decimal));
    assert forall|i: int| from <= i < e implies is_decimal(t@[i]) by {
        assert(in_class(t@.subrange(from as int, e as int)[i - from], CharClass::Decimal));
    }
    if from == s && s < e {
        assert(w[0] == t@[s as int]);
        assert(is_decimal(t@[s as int]));
    }
    parse_decimal(t, from, e, max)
}

/// The signed integer that `t[s..e]` writes, where it lies in `[min, max]`.
pub fn parse_signed(t: &Vec<char>, s: usize, e: usize, min: i64, max: i64) -> (r: Option<i64>)
    requires
        s <= e <= t.len(),
        i64::MIN < min < 0 <= max,
    ensures
        match integer_in(t@.subrange(s as int, e as int), min as int, max as int) {
            Some(v) => r == Some(v as i64),
            None => r is None,
        },
{
    let ghost w = t@.subrange(s as int, e as int);
    let mut from = s;
    let mut negative = false;
    if s < e && (t[s] == '+' || t[s] == '-') {
        negative = t[s] == '-';
        from = s + 1;
        assert(w.drop_first() =~= t@.subrange(from as int, e as int));
    }
    if from == e || !all_of_class(t, from, e, CharClass::Decimal) {
        if s < e && t[s] != '+' && t[s] != '-' {
            assert(w[0] == t@[s as int]);
        }
        return None;
    }
    assert(all_in_class(t@.subrange(from as int, e as int), CharClass::Decimal));
    assert forall|i: int| from <= i < e implies is_decimal(t@[i]) by {
        assert(in_class(t@.subrange(from as int, e as int)[i - from], CharClass::Decimal));
    }
    if from == s && s < e {
        assert(w[0] == t@[s as int]);
        assert(is_decimal(t@[s as int]));
    }
    let bound: u64 = if negative {
        (-min) as u64
    } else {
        max as u64
    };
    match parse_decimal(t, from, e, bound) {
        Some(v) => if negative {
            Some(-(v as i64))
        } else {
            Some(v as i64)
        },
        None => None,
    }
}

/// A run ends at or after its start, within the text, and holds only
/// characters of its class.
pub proof fn lemma_run_end(t: Seq<char>, i: int, class: CharClass)
    requires
        0 <= i <= t.len(),
    ensures
        i <= run_end(t, i, class) <= t.len(),
        forall|k: int| i <= k < run_end(t, i, class) ==> in_class(#[trigger] t[k], class),
    decreases t.len() - i,
{
    if i < t.len() && in_class(t[i], class) {
        lemma_run_end(t, i + 1, class);
    }
}

/// The decimal value of the leftmost field `key <blanks> <digits> <blanks> unit`
/// of `t`, where it is at most `max`.
pub fn field_u64(t: &Vec<char>, key: &str, unit: &str, max: u64) -> (r: Option<u64>)
    ensures
        match field_number(t@, key@, unit@, max as nat) {
            Some(n) => r == Some(n as u64),
            None => r is None,
        },
{
    let k = chars_of(key);
    let u = chars_of(unit);
    match find_field(t, &k, CharClass::Decimal, &u) {
        Some((s, e)) => {
            proof {
                let p = choose|p: int|
                    first_field_at(t@, p, k@, CharClass::Decimal, u@) && s == value_start(
                        t@,
                        p,
                        k@,
                    ) && e == value_end(t@, p, k@, CharClass::Decimal);
                lemma_run_end(t@, s as int, CharClass::Decimal);
            }
            parse_decimal(t, s, e, max)
        },
        None => None,
    }
}

/// The value of the leftmost field `key <blanks> <rest of line>` of `t`.
pub fn field_line(t: &Vec<char>, key: &str) -> (r: Option<Vec<char>>)
    ensures
        match field_value(t@, key@, CharClass::NotNewline, Seq::empty()) {
            Some(v) => r matches Some(x) && x@ == v,
            None => r is None,
        },
{
    let k = chars_of(key);
    let u: Vec<char> = Vec::new();
    assert(u@ =~= Seq::<char>::empty());
    match find_field(t, &k, CharClass::NotNewline, &u) {
        Some((s, e)) => Some(slice_of(t, s, e)),
        None => None,
    }
}

/// The characters `t[s..e]`.
pub fn slice_of(t: &Vec<char>, s: usize, e: usize) -> (r: Vec<char>)
    requires
        s <= e <= t.len(),
    ensures
        r@ == t@.subrange(s as int, e as int),
{
    let mut r: Vec<char> = Vec::new();
    let mut i = s;
    while i < e
        invariant
            s <= i <= e <= t.len(),
            r@ == t@.subrange(s as int, i as int),
        decreases e - i,
    {
        r.push(t[i]);
        i = i + 1;
        assert(r@ =~= t@.subrange(s as int, i as int));
    }
    r
}

/// Whether the characters of `t` are those of `word`.
pub fn same_text(t: &Vec<char>, word: &str) -> (r: bool)
    ensures
        r == (t@ == word@),
{
    let w = chars_of(word);
    if t.len() != w.len() {
        return false;
    }
    let m = word_matches(t, 0, &w);
    assert(m ==> t@ =~= w@);
    assert(t@ == w@ ==> t@.subrange(0, w@.len() as int) =~= w@);
    m
}

pub open spec fn min_nat(a: int, b: int) -> int {
    if a <= b {
        a
    } else {
        b
    }
}

/// `a * b`, or `u64::MAX` where the product exceeds it.
pub fn saturating_mul_u64(a: u64, b: u64) -> (r: u64)
    ensures
        r == min_nat(a * b, u64::MAX as int),
{
    if b != 0 && a > u64::MAX / b {
        assert(a * b > u64::MAX) by (nonlinear_arith)
            requires
                b != 0,
                a > u64::MAX / b,
        ;
        u64::MAX
    } else {
        assert(a * b <= u64::MAX) by (nonlinear_arith)
            requires
                b == 0 || a <= u64::MAX / b,
        ;
        a * b
    }
}

/// `a * b`, or `usize::MAX` where the product exceeds it.
pub fn saturating_mul_usize(a: usize, b: usize) -> (r: usize)
    ensures
        r == min_nat(a * b, usize::MAX as int),
{
    if b != 0 && a > usize::MAX / b {
        assert(a * b > usize::MAX) by (nonlinear_arith)
            requires
                b != 0,
                a > usize::MAX / b,
        ;
        usize::MAX
    } else {
        assert(a * b <= usize::MAX) by (nonlinear_arith)
            requires
                b == 0 || a <= usize::MAX / b,
        ;
        a * b
    }
}

pub open spec fn contains_word(t: Seq<char>, word: Seq<char>) -> bool {
    exists|p: int| word_at(t, p, word)
}

/// Whether `word` stands somewhere in `t`.
pub fn has_word(t: &Vec<char>, word: &Vec<char>) -> (r: bool)
    ensures
        r == contains_word(t@, word@),
{
    let mut p: usize = 0;
    while p < t.len()
        invariant
            p <= t.len(),
            forall|q: int| 0 <= q < p ==> !word_at(t@, q, word@),
        decreases t.len() - p,
    {
        if word_matches(t, p, word) {
            return true;
        }
        p = p + 1;
    }
    if word_matches(t, p, word) {
        return true;
    }
    assert forall|q: int| !word_at(t@, q, word@) by {
        if q > t.len() {
            assert(!(q + word@.len() <= t@.len()));
        }
    }
    false
}

/// Whether `t` ends with `word`.
pub fn ends_with_word(t: &Vec<char>, word: &Vec<char>) -> (r: bool)
    ensures
        r == ends_with(t@, word@),
{
    if word.len() > t.len() {
        return false;
    }
    word_matches(t, t.len() - word.len(), word)
}

/// Whether `t` starts with `word`.
pub fn starts_with_word(t: &Vec<char>, word: &Vec<char>) -> (r: bool)
    ensures
        r == starts_with(t@, word@),
{
    word_matches(t, 0, word)
}

/// The pieces of `t` between occurrences of `sep`.
pub fn split_pieces(t: &Vec<char>, sep: char) -> (r: Vec<Vec<char>>)
    ensures
        r.len() == split_on(t@, sep).len(),
        r.len() >= 1,
        forall|k: int| 0 <= k < r.len() ==> #[trigger] r[k]@ == split_on(t@, sep)[k],
{
    proof {
        lemma_split_nonempty(t@, sep);
    }
    let bounds = split_bounds(t, sep);
    let mut r: Vec<Vec<char>> = Vec::new();
    let mut k: usize = 0;
    while k < bounds.len()
        invariant
            k <= bounds.len(),
            bounds.len() == split_on(t@, sep).len(),
            r.len() == k,
            forall|j: int|
                #![trigger bounds[j]]
                0 <= j < bounds.len() ==> bounds[j].0 <= bounds[j].1 <= t.len() && t@.subrange(
                    bounds[j].0 as int,
                    bounds[j].1 as int,
                ) == split_on(t@, sep)[j],
            forall|j: int| 0 <= j < k ==> #[trigger] r[j]@ == split_on(t@, sep)[j],
        decreases bounds.len() - k,
    {
        let (s, e) = bounds[k];
        r.push(slice_of(t, s, e));
        k = k + 1;
    }
    r
}

} // verus!
