use vstd::prelude::*;

verus! {

/// Whether a character has the Unicode `White_Space` property, the set that
/// `char::is_whitespace` accepts.
pub open spec fn is_white_space(c: char) -> bool {
    let u = c as u32;
    ||| 0x09 <= u <= 0x0d
    ||| u == 0x20
    ||| u == 0x85
    ||| u == 0xa0
    ||| u == 0x1680
    ||| 0x2000 <= u <= 0x200a
    ||| u == 0x2028
    ||| u == 0x2029
    ||| u == 0x202f
    ||| u == 0x205f
    ||| u == 0x3000
}

/// Whether a character is white space in the sense of `char::is_whitespace`.
pub fn white_space(c: char) -> (r: bool)
    ensures
        r == is_white_space(c),
{
    let u = c as u32;
    (0x09 <= u && u <= 0x0d) || u == 0x20 || u == 0x85 || u == 0xa0 || u == 0x1680 || (0x2000
        <= u && u <= 0x200a) || u == 0x2028 || u == 0x2029 || u == 0x202f || u == 0x205f || u
        == 0x3000
}

/// The text without its leading white space.
pub open spec fn trim_start(s: Seq<char>) -> Seq<char>
    decreases s.len(),
{
    if s.len() > 0 && is_white_space(s[0]) {
        trim_start(s.drop_first())
    } else {
        s
    }
}

/// The text without its trailing white space.
pub open spec fn trim_end(s: Seq<char>) -> Seq<char>
    decreases s.len(),
{
    if s.len() > 0 && is_white_space(s.last()) {
        trim_end(s.drop_last())
    } else {
        s
    }
}

/// The text without leading and trailing white space, as `str::trim` gives it.
pub open spec fn trim(s: Seq<char>) -> Seq<char> {
    trim_end(trim_start(s))
}

/// The fields of a text separated by commas, as `str::split(',')` yields
/// them: one more field than there are commas, empty ones included.
pub open spec fn comma_fields(s: Seq<char>) -> Seq<Seq<char>>
    decreases s.len(),
{
    if s.len() == 0 {
        seq![Seq::empty()]
    } else {
        let prev = comma_fields(s.drop_last());
        if s.last() == ',' {
            prev.push(Seq::empty())
        } else {
            prev.update(prev.len() - 1, prev.last().push(s.last()))
        }
    }
}

/// The trimmed fields, leaving out those that trimming empties.
pub open spec fn nonempty_trimmed(fields: Seq<Seq<char>>) -> Seq<Seq<char>>
    decreases fields.len(),
{
    if fields.len() == 0 {
        Seq::empty()
    } else {
        let rest = nonempty_trimmed(fields.drop_last());
        let t = trim(fields.last());
        if t.len() > 0 {
            rest.push(t)
        } else {
            rest
        }
    }
}

/// The non-empty trimmed entries of a comma-separated list.
pub open spec fn comma_separated(s: Seq<char>) -> Seq<Seq<char>> {
    nonempty_trimmed(comma_fields(s))
}

/// The texts of a sequence of strings.
pub open spec fn texts(v: Seq<String>) -> Seq<Seq<char>> {
    v.map_values(|x: String| x@)
}

/// The items joined into one text with a comma between neighbours, as
/// `[String]::join(",")` gives it.
pub open spec fn join_with_comma(items: Seq<Seq<char>>) -> Seq<char>
    decreases items.len(),
{
    if items.len() == 0 {
        Seq::empty()
    } else if items.len() == 1 {
        items[0]
    } else {
        join_with_comma(items.drop_last()) + seq![','] + items.last()
    }
}

/// A text always has at least one comma-separated field.
proof fn lemma_comma_fields_nonempty(s: Seq<char>)
    ensures
        comma_fields(s).len() >= 1,
    decreases s.len(),
{
    if s.len() > 0 {
        lemma_comma_fields_nonempty(s.drop_last());
    }
}

/// The characters of a string, in order.
pub fn chars_of(s: &str) -> (r: Vec<char>)
    ensures
        r@ == s@,
{
    broadcast use vstd::string::group_string_axioms;

    let mut v: Vec<char> = Vec::new();
    for c in it: s.chars()
        invariant
            it.seq() == s@,
            v@ == it.seq().take(it.index()),
    {
        v.push(c);
    }
    v
}

/// The bounds of the trimmed part of `chars[start..end]`.
fn trimmed_bounds(chars: &Vec<char>, start: usize, end: usize) -> (r: (usize, usize))
    requires
        start <= end <= chars@.len(),
    ensures
        start <= r.0 <= r.1 <= end,
        chars@.subrange(r.0 as int, r.1 as int) == trim(chars@.subrange(start as int, end as int)),
{
    let mut a = start;
    while a < end && white_space(chars[a])
        invariant
            start <= a <= end <= chars@.len(),
            trim_start(chars@.subrange(start as int, end as int)) == trim_start(
                chars@.subrange(a as int, end as int),
            ),
        decreases end - a,
    {
        assert(chars@.subrange(a as int, end as int).drop_first() =~= chars@.subrange(
            a + 1,
            end as int,
        ));
        a = a + 1;
    }
    assert(trim_start(chars@.subrange(a as int, end as int)) == chars@.subrange(
        a as int,
        end as int,
    ));
    let mut b = end;
    while b > a && white_space(chars[b - 1])
        invariant
            start <= a <= b <= end <= chars@.len(),
            trim(chars@.subrange(start as int, end as int)) == trim_end(
                chars@.subrange(a as int, b as int),
            ),
        decreases b - a,
    {
        assert(chars@.subrange(a as int, b as int).drop_last() =~= chars@.subrange(
            a as int,
            b - 1,
        ));
        b = b - 1;
    }
    (a, b)
}

proof fn lemma_texts_push(v: Seq<String>, s: String)
    ensures
        texts(v.push(s)) == texts(v).push(s@),
{
    assert(texts(v.push(s)) =~= texts(v).push(s@));
}

/// Adds the trimmed field `chars[start..end]` to `out` unless trimming
/// leaves it empty.
fn push_trimmed_field(value: &str, chars: &Vec<char>, start: usize, end: usize, out: &mut Vec<String>)
    requires
        chars@ == value@,
        start <= end <= chars@.len(),
    ensures
        ({
            let t = trim(chars@.subrange(start as int, end as int));
            texts(final(out)@) == if t.len() > 0 {
                texts(old(out)@).push(t)
            } else {
                texts(old(out)@)
            }
        }),
{
    let (a, b) = trimmed_bounds(chars, start, end);
    if a < b {
        let field = value.substring_char(a, b).to_owned();
        proof {
            lemma_texts_push(out@, field);
        }
        out.push(field);
    }
}

/// The non-empty, trimmed entries of a comma-separated list, in order.
pub fn split_comma_separated(value: &str) -> (r: Vec<String>)
    ensures
        texts(r@) == comma_separated(value@),
{
    let chars = chars_of(value);
    let n = chars.len();
    let mut out: Vec<String> = Vec::new();
    let mut start: usize = 0;
    let mut i: usize = 0;
    proof {
        assert(value@.take(0) =~= Seq::<char>::empty());
        assert(texts(out@) =~= Seq::<Seq<char>>::empty());
        reveal_with_fuel(comma_fields, 1);
        reveal_with_fuel(nonempty_trimmed, 2);
    }
    while i < n
        invariant
            chars@ == value@,
            n == chars@.len(),
            start <= i <= n,
            comma_fields(value@.take(i as int)).len() >= 1,
            comma_fields(value@.take(i as int)).last() == value@.subrange(start as int, i as int),
            texts(out@) == nonempty_trimmed(comma_fields(value@.take(i as int)).drop_last()),
        decreases n - i,
    {
        let ghost prev = comma_fields(value@.take(i as int));
        assert(value@.take(i + 1).drop_last() =~= value@.take(i as int));
        assert(value@.take(i + 1).last() == chars@[i as int]);
        if chars[i] == ',' {
            push_trimmed_field(value, &chars, start, i, &mut out);
            proof {
                let next = prev.push(Seq::empty());
                assert(comma_fields(value@.take(i + 1)) == next);
                assert(next.drop_last() =~= prev);
                assert(prev.drop_last().push(prev.last()) =~= prev);
                assert(value@.subrange((i + 1) as int, (i + 1) as int) =~= Seq::<char>::empty());
            }
            start = i + 1;
        } else {
            proof {
                let next = prev.update(prev.len() - 1, prev.last().push(value@[i as int]));
                assert(comma_fields(value@.take(i + 1)) == next);
                assert(next.drop_last() =~= prev.drop_last());
                assert(value@.subrange(start as int, i + 1) =~= value@.subrange(
                    start as int,
                    i as int,
                ).push(value@[i as int]));
            }
        }
        i = i + 1;
    }
    push_trimmed_field(value, &chars, start, n, &mut out);
    proof {
        let all = comma_fields(value@.take(n as int));
        assert(value@.take(n as int) =~= value@);
        assert(all.drop_last().push(all.last()) =~= all);
    }
    out
}


/// The items joined with a comma between neighbours.
pub fn join_comma(items: &[String]) -> (r: String)
    ensures
        r@ == join_with_comma(texts(items@)),
{
    let mut out = String::new();
    let mut i: usize = 0;
    proof {
        reveal_strlit(",");
        assert(texts(items@).take(0) =~= Seq::<Seq<char>>::empty());
    }
    while i < items.len()
        invariant
            i <= items@.len(),
            out@ == join_with_comma(texts(items@).take(i as int)),
        decreases items@.len() - i,
    {
        proof {
            reveal_strlit(",");
            assert(texts(items@).take(i + 1).drop_last() =~= texts(items@).take(i as int));
            assert(texts(items@).take(i + 1).last() == items@[i as int]@);
        }
        if i > 0 {
            out.append(",");
        }
        out.append(items[i].as_str());
        proof {
            if i == 0 {
                assert(out@ =~= texts(items@).take(1)[0]);
            }
        }
        i = i + 1;
    }
    proof {
        assert(texts(items@).take(items@.len() as int) =~= texts(items@));
    }
    out
}

/// The character of a decimal digit.
pub open spec fn digit_char(d: nat) -> char {
    (48 + d) as char
}

/// The decimal numeral of a natural number, without leading zeros.
pub open spec fn nat_text(n: nat) -> Seq<char>
    decreases n,
{
    if n < 10 {
        seq![digit_char(n)]
    } else {
        nat_text(n / 10).push(digit_char(n % 10))
    }
}

/// The decimal numeral of an integer, with a minus sign when negative, as
/// `Display` writes it.
pub open spec fn int_text(n: int) -> Seq<char> {
    if n < 0 {
        seq!['-'] + nat_text((-n) as nat)
    } else {
        nat_text(n as nat)
    }
}

fn digit_str(d: u64) -> (r: &'static str)
    requires
        d < 10,
    ensures
        r@ == seq![digit_char(d as nat)],
{
    proof {
        reveal_strlit("0");
        reveal_strlit("1");
        reveal_strlit("2");
        reveal_strlit("3");
        reveal_strlit("4");
        reveal_strlit("5");
        reveal_strlit("6");
        reveal_strlit("7");
        reveal_strlit("8");
        reveal_strlit("9");
    }
    match d {
        0 => "0",
        1 => "1",
        2 => "2",
        3 => "3",
        4 => "4",
        5 => "5",
        6 => "6",
        7 => "7",
        8 => "8",
        _ => "9",
    }
}

/// Appends the decimal numeral of `n` to `out`.
pub fn push_decimal(out: &mut String, n: u64)
    ensures
        final(out)@ == old(out)@ + nat_text(n as nat),
    decreases n,
{
    if n >= 10 {
        push_decimal(out, n / 10);
    }
    out.append(digit_str(n % 10));
    proof {
        if n >= 10 {
            assert(old(out)@ + nat_text(n as nat) =~= old(out)@ + nat_text((n / 10) as nat) + seq![digit_char((n % 10) as nat)]);
        } else {
            assert(n % 10 == n);
        }
    }
}

/// The decimal numeral of an integer, as `i64::to_string` writes it.
pub fn decimal(n: i64) -> (r: String)
    ensures
        r@ == int_text(n as int),
{
    let mut out = String::new();
    if n < 0 {
        proof {
            reveal_strlit("-");
        }
        out.append("-");
        let magnitude: u64 = if n == i64::MIN {
            9223372036854775808u64
        } else {
            (-n) as u64
        };
        push_decimal(&mut out, magnitude);
    } else {
        push_decimal(&mut out, n as u64);
    }
    out
}

/// Whether `s` begins with `prefix`.
pub fn starts_with(s: &str, prefix: &str) -> (r: bool)
    ensures
        r == prefix@.is_prefix_of(s@),
{
    let n = prefix.unicode_len();
    if s.unicode_len() < n {
        false
    } else {
        let head = s.substring_char(0, n).to_owned();
        let p = prefix.to_owned();
        head == p
    }
}

/// Whether two texts are equal.
pub fn same_text(a: &str, b: &str) -> (r: bool)
    ensures
        r == (a@ == b@),
{
    let x = a.to_owned();
    let y = b.to_owned();
    x == y
}


proof fn lemma_comma_fields_plain_suffix(x: Seq<char>, y: Seq<char>)
    requires
        !y.contains(','),
    ensures
        comma_fields(x).len() >= 1,
        comma_fields(x + y) == comma_fields(x).update(
            comma_fields(x).len() - 1,
            comma_fields(x).last() + y,
        ),
    decreases y.len(),
{
    lemma_comma_fields_nonempty(x);
    let f = comma_fields(x);
    if y.len() == 0 {
        assert(x + y =~= x);
        assert(f.last() + y =~= f.last());
        assert(f.update(f.len() - 1, f.last() + y) =~= f);
    } else {
        let c = y.last();
        assert(y.drop_last().contains(',') ==> y.contains(',')) by {
            if y.drop_last().contains(',') {
                let k = choose|k: int| 0 <= k < y.drop_last().len() && y.drop_last()[k] == ',';
                assert(y[k] == ',');
            }
        }
        lemma_comma_fields_plain_suffix(x, y.drop_last());
        assert(y[y.len() - 1] == c);
        assert((x + y).drop_last() =~= x + y.drop_last());
        assert((x + y).last() == c);
        lemma_comma_fields_nonempty(x + y.drop_last());
        let prev = comma_fields(x + y.drop_last());
        assert(prev.last() == f.last() + y.drop_last());
        assert(prev.last().push(c) =~= f.last() + y);
        assert(prev.update(prev.len() - 1, prev.last().push(c)) =~= f.update(
            f.len() - 1,
            f.last() + y,
        ));
    }
}

proof fn lemma_comma_fields_of_join(items: Seq<Seq<char>>)
    requires
        items.len() >= 1,
        forall|i: int| 0 <= i < items.len() ==> !(#[trigger] items[i]).contains(','),
    ensures
        comma_fields(join_with_comma(items)) == items,
    decreases items.len(),
{
    let empty = Seq::<char>::empty();
    if items.len() == 1 {
        lemma_comma_fields_plain_suffix(empty, items[0]);
        assert(empty + items[0] =~= items[0]);
        assert(comma_fields(empty) == seq![empty]);
        assert(empty + items[0] =~= items[0]);
        assert(seq![empty].update(0, empty + items[0]) =~= items);
    } else {
        let init = items.drop_last();
        assert forall|i: int| 0 <= i < init.len() implies !(#[trigger] init[i]).contains(',') by {
            assert(init[i] == items[i]);
        }
        lemma_comma_fields_of_join(init);
        let j = join_with_comma(init);
        let jc = j + seq![','];
        assert(jc.drop_last() =~= j);
        assert(jc.last() == ',');
        assert(comma_fields(jc) == init.push(empty));
        assert(!items[items.len() - 1].contains(','));
        lemma_comma_fields_plain_suffix(jc, items.last());
        assert(empty + items.last() =~= items.last());
        assert(init.push(empty).update(init.len() as int, empty + items.last()) =~= items);
    }
}

proof fn lemma_nonempty_trimmed_keeps(items: Seq<Seq<char>>)
    requires
        forall|i: int| 0 <= i < items.len() ==> (#[trigger] items[i]).len() > 0 && trim(items[i]) == items[i],
    ensures
        nonempty_trimmed(items) == items,
    decreases items.len(),
{
    if items.len() > 0 {
        let init = items.drop_last();
        assert forall|i: int| 0 <= i < init.len() implies (#[trigger] init[i]).len() > 0 && trim(init[i]) == init[i] by {
            assert(init[i] == items[i]);
        }
        lemma_nonempty_trimmed_keeps(init);
        assert(items[items.len() - 1].len() > 0);
        assert(init.push(items.last()) =~= items);
    }
}

/// Law: a list written with [`join_comma`] is read back unchanged by
/// [`split_comma_separated`], when every entry is non-empty, holds no comma
/// and has no leading or trailing white space.
pub proof fn lemma_comma_list_round_trip(items: Seq<Seq<char>>)
    requires
        forall|i: int|
            0 <= i < items.len() ==> (#[trigger] items[i]).len() > 0 && !items[i].contains(',')
                && trim(items[i]) == items[i],
    ensures
        comma_separated(join_with_comma(items)) == items,
{
    if items.len() == 0 {
        let empty = Seq::<char>::empty();
        assert(comma_fields(empty) == seq![empty]);
        assert(trim_start(empty) == empty);
        assert(trim_end(empty) == empty);
        assert(seq![empty].drop_last() =~= Seq::<Seq<char>>::empty());
        assert(trim(empty) == empty);
        assert(nonempty_trimmed(seq![empty].drop_last()) == Seq::<Seq<char>>::empty());
        assert(seq![empty].last() == empty);
        assert(nonempty_trimmed(seq![empty]) =~= items);
    } else {
        lemma_comma_fields_of_join(items);
        lemma_nonempty_trimmed_keeps(items);
    }
}

/// Law: within ASCII, the white space is exactly the tab, line feed,
/// vertical tab, form feed, carriage return and space; no letter, digit or
/// punctuation character is white space, and above ASCII only characters
/// from U+0085 on can be.
pub proof fn lemma_ascii_white_space(c: char)
    ensures
        ('\t' <= c <= '\r' || c == ' ') ==> is_white_space(c),
        '!' <= c <= '~' ==> !is_white_space(c),
        is_white_space(c) ==> ('\t' <= c <= '\r' || c == ' ' || (c as u32) >= 0x85),
{
}

proof fn lemma_trim_start_keeps(s: Seq<char>)
    requires
        s.len() > 0,
        '!' <= s[0] <= '~',
    ensures
        trim_start(s) == s,
{
    lemma_ascii_white_space(s[0]);
}

proof fn lemma_trim_end_keeps(s: Seq<char>)
    requires
        s.len() > 0,
        '!' <= s.last() <= '~',
    ensures
        trim_end(s) == s,
{
    lemma_ascii_white_space(s.last());
}

/// Law: trimming keeps a text whose first and last characters are visible
/// ASCII (letters, digits, punctuation) unchanged.
pub proof fn lemma_trim_keeps_visible_ends(s: Seq<char>)
    requires
        s.len() > 0,
        '!' <= s[0] <= '~',
        '!' <= s.last() <= '~',
    ensures
        trim(s) == s,
{
    lemma_trim_start_keeps(s);
    lemma_trim_end_keeps(s);
}

/// Law: a list of entries without commas, each beginning and ending with a
/// visible ASCII character, joined with commas, is split back into the
/// same entries.
pub proof fn lemma_visible_list_round_trip(items: Seq<Seq<char>>)
    requires
        forall|i: int|
            0 <= i < items.len() ==> (#[trigger] items[i]).len() > 0 && !items[i].contains(',')
                && '!' <= items[i][0] <= '~' && '!' <= items[i].last() <= '~',
    ensures
        comma_separated(join_with_comma(items)) == items,
{
    assert forall|i: int| 0 <= i < items.len() implies (#[trigger] items[i]).len() > 0
        && !items[i].contains(',') && trim(items[i]) == items[i] by {
        lemma_trim_keeps_visible_ends(items[i]);
    }
    lemma_comma_list_round_trip(items);
}

/// Law: a single entry without commas that begins and ends with a visible
/// ASCII character is read as itself alone.
pub proof fn lemma_single_visible_entry(entry: Seq<char>)
    requires
        entry.len() > 0,
        !entry.contains(','),
        '!' <= entry[0] <= '~',
        '!' <= entry.last() <= '~',
    ensures
        comma_separated(entry) == seq![entry],
{
    lemma_visible_list_round_trip(seq![entry]);
    assert(join_with_comma(seq![entry]) == entry);
}

} // verus!
