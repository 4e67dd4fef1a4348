//! Character-level helpers for the task table: decimal rendering of counters,
//! the last tab-separated field of a table row, and substring search.

use vstd::prelude::*;

verus! {

/// The character that separates the columns of a task table row.
pub open spec fn column_separator() -> char {
    '\t'
}

/// The decimal digit character for `d` (`d < 10`).
pub open spec fn digit_char(d: nat) -> char {
    if d == 0 {
        '0'
    } else if d == 1 {
        '1'
    } else if d == 2 {
        '2'
    } else if d == 3 {
        '3'
    } else if d == 4 {
        '4'
    } else if d == 5 {
        '5'
    } else if d == 6 {
        '6'
    } else if d == 7 {
        '7'
    } else if d == 8 {
        '8'
    } else {
        '9'
    }
}

/// The decimal representation of `n`, without sign and without leading zeros
/// (the representation of zero is `"0"`).
pub open spec fn decimal(n: nat) -> Seq<char>
    decreases n,
{
    if n < 10 {
        seq![digit_char(n)]
    } else {
        decimal(n / 10).push(digit_char(n % 10))
    }
}

/// Appends `c` to the end of `s`.
#[verifier::external_body]
pub(crate) fn push_char(s: &mut String, c: char)
    ensures
        final(s)@ == old(s)@.push(c),
{
    s.push(c);
}

fn digit(d: u64) -> (c: char)
    requires
        d < 10,
    ensures
        c == digit_char(d as nat),
{
    if d == 0 {
        '0'
    } else if d == 1 {
        '1'
    } else if d == 2 {
        '2'
    } else if d == 3 {
        '3'
    } else if d == 4 {
        '4'
    } else if d == 5 {
        '5'
    } else if d == 6 {
        '6'
    } else if d == 7 {
        '7'
    } else if d == 8 {
        '8'
    } else {
        '9'
    }
}

/// Appends the decimal representation of `n` to `s`.
pub fn push_decimal(s: &mut String, n: u64)
    ensures
        final(s)@ == old(s)@ + decimal(n as nat),
    decreases n,
{
    if n >= 10 {
        push_decimal(s, n / 10);
    }
    push_char(s, digit(n % 10));
    proof {
        if n < 10 {
            assert(n % 10 == n);
        }
    }
}

/// The characters of `s`, in order.
pub fn chars_of(s: &str) -> (v: Vec<char>)
    ensures
        v@ == s@,
{
    let mut v: Vec<char> = Vec::new();
    for c in it: s.chars()
        invariant
            v@ == it.seq().take(it.index()),
    {
        v.push(c);
    }
    v
}



/// The value of a decimal digit character (0 for any other character).
pub open spec fn digit_value(c: char) -> int {
    if c == '1' {
        1
    } else if c == '2' {
        2
    } else if c == '3' {
        3
    } else if c == '4' {
        4
    } else if c == '5' {
        5
    } else if c == '6' {
        6
    } else if c == '7' {
        7
    } else if c == '8' {
        8
    } else if c == '9' {
        9
    } else {
        0
    }
}

/// `c` is one of the characters `'0'` to `'9'`.
pub open spec fn is_digit(c: char) -> bool {
    c == '0' || c == '1' || c == '2' || c == '3' || c == '4' || c == '5' || c == '6' || c == '7'
        || c == '8' || c == '9'
}

/// The number a string of decimal digits denotes, most significant first.
pub open spec fn digits_value(s: Seq<char>) -> int
    decreases s.len(),
{
    if s.len() == 0 {
        0
    } else {
        digits_value(s.drop_last()) * 10 + digit_value(s.last())
    }
}

/// Law: the decimal rendering of `n` is a non-empty string of digits, without
/// a leading zero unless it is `"0"`, and it reads back as `n`.
pub proof fn lemma_decimal_reads_back(n: nat)
    ensures
        decimal(n).len() >= 1,
        forall|i: int| 0 <= i < decimal(n).len() ==> is_digit(#[trigger] decimal(n)[i]),
        decimal(n).len() > 1 ==> decimal(n)[0] != '0',
        n >= 1 ==> decimal(n)[0] != '0',
        digits_value(decimal(n)) == n,
        separator_free(decimal(n)),
    decreases n,
{
    assert(digit_value(digit_char(n % 10)) == n % 10);
    if n < 10 {
        assert(decimal(n).drop_last() =~= Seq::<char>::empty());
        assert(n % 10 == n);
        assert(digits_value(decimal(n)) == digits_value(decimal(n).drop_last()) * 10
            + digit_value(decimal(n).last()));
    } else {
        lemma_decimal_reads_back(n / 10);
        let d = decimal(n);
        assert(d.drop_last() =~= decimal(n / 10));
        assert(d.last() == digit_char(n % 10));
        assert(digits_value(d) == digits_value(d.drop_last()) * 10 + digit_value(d.last()));
        assert(d[0] == decimal(n / 10)[0]);
        assert(n == (n / 10) * 10 + n % 10);
        assert forall|i: int| 0 <= i < d.len() implies is_digit(#[trigger] d[i]) by {
            if i < d.len() - 1 {
                assert(d[i] == decimal(n / 10)[i]);
            }
        }
    }
}

/// The tab-separated columns of a row, in order; a row without separators is
/// one column, and a row ending in a separator ends in an empty column.
pub open spec fn columns(s: Seq<char>) -> Seq<Seq<char>>
    decreases s.len(),
{
    if s.len() == 0 {
        seq![Seq::empty()]
    } else {
        let before = columns(s.drop_last());
        if s.last() == column_separator() {
            before.push(Seq::empty())
        } else {
            before.update(before.len() - 1, before.last().push(s.last()))
        }
    }
}

proof fn lemma_columns_not_empty(s: Seq<char>)
    ensures
        columns(s).len() >= 1,
    decreases s.len(),
{
    if s.len() > 0 {
        lemma_columns_not_empty(s.drop_last());
    }
}

/// A row without separators is a single column.
pub proof fn lemma_columns_of_field(s: Seq<char>)
    requires
        separator_free(s),
    ensures
        columns(s) == seq![s],
    decreases s.len(),
{
    if s.len() > 0 {
        assert(separator_free(s.drop_last()));
        lemma_columns_of_field(s.drop_last());
        assert(s.drop_last().push(s.last()) =~= s);
        assert(columns(s) =~= seq![s]);
    } else {
        assert(s =~= Seq::<char>::empty());
    }
}

/// Joining two rows with a separator joins their columns.
pub proof fn lemma_columns_of_join(a: Seq<char>, b: Seq<char>)
    ensures
        columns(a.push(column_separator()) + b) == columns(a) + columns(b),
    decreases b.len(),
{
    let s = a.push(column_separator()) + b;
    if b.len() == 0 {
        assert(s =~= a.push(column_separator()));
        assert(s.drop_last() =~= a);
        assert(columns(s) =~= columns(a) + columns(b));
    } else {
        lemma_columns_of_join(a, b.drop_last());
        lemma_columns_not_empty(b.drop_last());
        lemma_columns_not_empty(a);
        assert(s.drop_last() =~= a.push(column_separator()) + b.drop_last());
        assert(s.last() == b.last());
        assert(columns(s) =~= columns(a) + columns(b));
    }
}

/// Where the last column of `s` starts: one past its last separator, or 0
/// when `s` holds none.
pub open spec fn last_field_start(s: Seq<char>) -> int
    decreases s.len(),
{
    if s.len() == 0 {
        0
    } else if s.last() == column_separator() {
        s.len() as int
    } else {
        last_field_start(s.drop_last())
    }
}

/// The last column of a row: what follows its last separator, or the whole
/// row when it holds no separator.
pub open spec fn last_field(s: Seq<char>) -> Seq<char> {
    s.subrange(last_field_start(s), s.len() as int)
}

/// `s` holds no column separator.
pub open spec fn separator_free(s: Seq<char>) -> bool {
    forall|i: int| 0 <= i < s.len() ==> s[i] != column_separator()
}

proof fn lemma_last_field_start_bounds(s: Seq<char>)
    ensures
        0 <= last_field_start(s) <= s.len(),
    decreases s.len(),
{
    if s.len() > 0 && s.last() != column_separator() {
        lemma_last_field_start_bounds(s.drop_last());
    }
}

/// A row that ends in a separator followed by a separator-free field has that
/// field as its last column.
pub proof fn lemma_last_field_of_suffix(prefix: Seq<char>, field: Seq<char>)
    requires
        separator_free(field),
    ensures
        last_field_start(prefix.push(column_separator()) + field) == prefix.len() + 1,
        last_field(prefix.push(column_separator()) + field) == field,
    decreases field.len(),
{
    let s = prefix.push(column_separator()) + field;
    if field.len() == 0 {
        assert(s =~= prefix.push(column_separator()));
    } else {
        assert(s.drop_last() =~= prefix.push(column_separator()) + field.drop_last());
        assert(s.last() == field.last());
        lemma_last_field_of_suffix(prefix, field.drop_last());
    }
    assert(s.subrange(prefix.len() + 1int, s.len() as int) =~= field);
}

/// The last tab-separated column of `line`.
pub fn last_field_of(line: &str) -> (field: String)
    ensures
        field@ == last_field(line@),
{
    let chars = chars_of(line);
    let n = chars.len();
    let mut start: usize = 0;
    let mut i: usize = 0;
    while i < n
        invariant
            n == chars@.len(),
            chars@ == line@,
            i <= n,
            start == last_field_start(chars@.take(i as int)),
        decreases n - i,
    {
        assert(chars@.take(i + 1).drop_last() =~= chars@.take(i as int));
        if chars[i] == '\t' {
            start = i + 1;
        }
        i = i + 1;
    }
    assert(chars@.take(n as int) =~= chars@);
    proof {
        lemma_last_field_start_bounds(chars@);
    }
    let mut field = String::new();
    let mut j: usize = start;
    while j < n
        invariant
            n == chars@.len(),
            chars@ == line@,
            start == last_field_start(line@),
            start <= j <= n,
            field@ == line@.subrange(start as int, j as int),
        decreases n - j,
    {
        push_char(&mut field, chars[j]);
        assert(line@.subrange(start as int, j + 1) =~= line@.subrange(start as int, j as int).push(
            line@[j as int],
        ));
        j = j + 1;
    }
    field
}

/// `pattern` occurs in `s` starting at position `i`.
pub open spec fn occurs_at(s: Seq<char>, pattern: Seq<char>, i: int) -> bool {
    0 <= i && i + pattern.len() <= s.len() && s.subrange(i, i + pattern.len()) == pattern
}

/// `pattern` occurs somewhere in `s`.
pub open spec fn contains(s: Seq<char>, pattern: Seq<char>) -> bool {
    exists|i: int| occurs_at(s, pattern, i)
}

fn matches_at(s: &Vec<char>, pattern: &Vec<char>, i: usize) -> (b: bool)
    requires
        i + pattern@.len() <= s@.len(),
    ensures
        b == occurs_at(s@, pattern@, i as int),
{
    let m = pattern.len();
    let mut k: usize = 0;
    while k < m
        invariant
            m == pattern@.len(),
            i + m <= s@.len(),
            s@.len() == s.len(),
            k <= m,
            forall|j: int| 0 <= j < k ==> s@[i + j] == pattern@[j],
        decreases m - k,
    {
        if s[i + k] != pattern[k] {
            assert(s@.subrange(i as int, i + m)[k as int] != pattern@[k as int]);
            return false;
        }
        k = k + 1;
    }
    assert(s@.subrange(i as int, i + m) =~= pattern@);
    true
}

/// Whether `pattern` occurs in `s`.
pub fn str_contains(s: &str, pattern: &str) -> (b: bool)
    ensures
        b == contains(s@, pattern@),
{
    let sc = chars_of(s);
    let pc = chars_of(pattern);
    if pc.len() == 0 {
        assert(s@.subrange(0, 0) =~= pattern@);
        assert(occurs_at(s@, pattern@, 0));
        return true;
    }
    if pc.len() > sc.len() {
        assert(forall|i: int| !occurs_at(s@, pattern@, i));
        return false;
    }
    let last = sc.len() - pc.len();
    let mut i: usize = 0;
    while i <= last
        invariant
            sc@ == s@,
            pc@ == pattern@,
            last == sc@.len() - pc@.len(),
            pc@.len() > 0,
            sc@.len() == sc.len(),
            i <= last + 1,
            forall|j: int| 0 <= j < i ==> !occurs_at(s@, pattern@, j),
        decreases last + 1 - i,
    {
        if matches_at(&sc, &pc, i) {
            return true;
        }
        i = i + 1;
    }
    assert forall|j: int| !occurs_at(s@, pattern@, j) by {
        if occurs_at(s@, pattern@, j) {
            assert(j <= last);
        }
    }
    false
}

} // verus!
