//! Texts: joining and splitting, replacing, trimming, numbers and order.

use vstd::prelude::*;

use crate::text;

verus! {

// ---------------------------------------------------------------------------
// Joining and splitting
// ---------------------------------------------------------------------------

/// Joining puts the separator between neighbours and nowhere else: a list in two
/// parts is the first part, the separator, and the second part.
pub proof fn law_joined_in_parts(a: Seq<Seq<char>>, b: Seq<Seq<char>>, sep: Seq<char>)
    requires
        a.len() > 0,
        b.len() > 0,
    ensures
        text::joined(a + b, sep) == text::joined(a, sep) + sep + text::joined(b, sep),
    decreases b.len(),
{
    let all = a + b;
    assert(all.last() == b.last());
    assert(all.drop_last() =~= a + b.drop_last());
    if b.len() == 1 {
        assert(a + b.drop_last() =~= a);
    } else {
        law_joined_in_parts(a, b.drop_last(), sep);
    }
    assert(text::joined(all, sep) =~= text::joined(a, sep) + sep + text::joined(b, sep));
}

/// One text joined is that text, and none is nothing.
pub proof fn law_joined_one(part: Seq<char>, sep: Seq<char>)
    ensures
        text::joined(seq![part], sep) == part,
        text::joined(Seq::empty(), sep) == Seq::<char>::empty(),
{
}

/// Splitting into lines loses nothing: the lines, with line breaks between them,
/// are the text, and there is no line break in a line.
pub proof fn law_lines_read_back(s: Seq<char>)
    ensures
        text::lines_of(s).len() > 0,
        text::joined(text::lines_of(s), "\n"@) == s,
        forall|i: int|
            0 <= i < text::lines_of(s).len() ==> !(#[trigger] text::lines_of(s)[i]).contains('\n'),
    decreases s.len(),
{
    reveal_strlit("\n");
    let lines = text::lines_of(s);
    if s.len() == 0 {
        assert(text::joined(lines, "\n"@) =~= s);
    } else {
        let t = s.drop_last();
        let c = s.last();
        law_lines_read_back(t);
        let front = text::lines_of(t);
        assert(s =~= t.push(c));
        if c == '\n' {
            let empty = seq![Seq::<char>::empty()];
            assert(lines =~= front + empty);
            law_joined_in_parts(front, empty, "\n"@);
            assert(text::joined(lines, "\n"@) =~= s);
        } else {
            let last = seq![front.last().push(c)];
            assert(lines =~= front.drop_last() + last);
            assert(front =~= front.drop_last() + seq![front.last()]);
            if front.len() == 1 {
                assert(front.drop_last() + last =~= last);
                assert(text::joined(lines, "\n"@) =~= s);
            } else {
                law_joined_in_parts(front.drop_last(), last, "\n"@);
                law_joined_in_parts(front.drop_last(), seq![front.last()], "\n"@);
                assert(text::joined(lines, "\n"@) =~= s);
            }
            assert forall|i: int| 0 <= i < lines.len() implies !(#[trigger] lines[i]).contains('\n') by {
                if i == lines.len() - 1 {
                    assert(!front[front.len() - 1].contains('\n'));
                    let l = front.last();
                    assert forall|k: int| 0 <= k < l.push(c).len() implies l.push(c)[k] != '\n' by {
                        if k < l.len() {
                            assert(l.contains(l[k]));
                        }
                    }
                } else {
                    assert(lines[i] == front[i]);
                }
            }
        }
    }
}

// ---------------------------------------------------------------------------
// Replacing
// ---------------------------------------------------------------------------

/// A part stands at a place where the text goes on with it there, and it occurs in a text
/// that is something, the part, and something.
pub proof fn law_stands_at(s: Seq<char>, part: Seq<char>, a: Seq<char>, b: Seq<char>, i: int)
    ensures
        text::stands_at(s, part, i) <==> 0 <= i && i + part.len() <= s.len() && s.subrange(
            i,
            i + part.len(),
        ) == part,
        text::stands_at(a + part + b, part, a.len() as int),
        text::occurs(a + part + b, part),
        text::occurs(s, part) ==> exists|k: int| #[trigger] text::stands_at(s, part, k),
{
    let t = a + part + b;
    assert(t.subrange(a.len() as int, (a.len() + part.len()) as int) =~= part);
    assert(text::stands_at(t, part, a.len() as int));
}

proof fn lemma_replaced_skip(s: Seq<char>, old_part: Seq<char>, new_part: Seq<char>, i: int, k: int)
    requires
        old_part.len() > 0,
        0 <= i <= k <= s.len(),
        forall|j: int| i <= j < k ==> !text::stands_at(s, old_part, j),
    ensures
        text::replaced_from(s, old_part, new_part, i) == s.subrange(i, k) + text::replaced_from(
            s,
            old_part,
            new_part,
            k,
        ),
    decreases k - i,
{
    if i == k {
        assert(s.subrange(i, k) + text::replaced_from(s, old_part, new_part, k)
            =~= text::replaced_from(s, old_part, new_part, k));
    } else {
        lemma_replaced_skip(s, old_part, new_part, i + 1, k);
        assert(seq![s[i]] + s.subrange(i + 1, k) =~= s.subrange(i, k));
        assert(!text::stands_at(s, old_part, i));
        assert(text::replaced_from(s, old_part, new_part, i) =~= s.subrange(i, k)
            + text::replaced_from(s, old_part, new_part, k));
    }
}

proof fn lemma_replaced_shift(a: Seq<char>, b: Seq<char>, old_part: Seq<char>, new_part: Seq<char>, i: int)
    requires
        0 <= i,
        old_part.len() > 0,
    ensures
        text::replaced_from(a + b, old_part, new_part, a.len() + i) == text::replaced_from(
            b,
            old_part,
            new_part,
            i,
        ),
    decreases b.len() - i,
{
    let s = a + b;
    let k = a.len() + i;
    if i < b.len() {
        let n = old_part.len();
        assert(text::stands_at(s, old_part, k) == text::stands_at(b, old_part, i)) by {
            if i + n <= b.len() {
                assert(s.subrange(k, k + n) =~= b.subrange(i, i + n));
            }
        }
        if text::stands_at(b, old_part, i) {
            lemma_replaced_shift(a, b, old_part, new_part, (i + n) as int);
        } else {
            lemma_replaced_shift(a, b, old_part, new_part, i + 1);
            assert(s[k] == b[i]);
        }
    }
}

/// The first occurrence is replaced and what comes before it stays; behind it the
/// same is done again.
pub proof fn law_first_is_replaced(a: Seq<char>, b: Seq<char>, old_part: Seq<char>, new_part: Seq<char>)
    requires
        old_part.len() > 0,
        forall|j: int| 0 <= j < a.len() ==> !text::stands_at(a + old_part + b, old_part, j),
    ensures
        text::replaced(a + old_part + b, old_part, new_part) == a + new_part + text::replaced(
            b,
            old_part,
            new_part,
        ),
{
    let s = a + old_part + b;
    let n = a.len() as int;
    lemma_replaced_skip(s, old_part, new_part, 0, n);
    assert(s.subrange(0, n) =~= a);
    assert(s.subrange(n, n + old_part.len()) =~= old_part);
    lemma_replaced_shift(a + old_part, b, old_part, new_part, 0);
    assert(text::replaced(s, old_part, new_part) =~= a + new_part + text::replaced(
        b,
        old_part,
        new_part,
    ));
}

/// A text without the part stays as it is.
pub proof fn law_nothing_to_replace(s: Seq<char>, old_part: Seq<char>, new_part: Seq<char>)
    requires
        old_part.len() > 0,
        forall|j: int| 0 <= j < s.len() ==> !text::stands_at(s, old_part, j),
    ensures
        text::replaced(s, old_part, new_part) == s,
{
    lemma_replaced_skip(s, old_part, new_part, 0, s.len() as int);
    assert(s.subrange(0, s.len() as int) =~= s);
    assert(text::replaced(s, old_part, new_part) =~= s);
}

// ---------------------------------------------------------------------------
// White space
// ---------------------------------------------------------------------------

/// Whether a text consists of white space.
pub open spec fn blank(s: Seq<char>) -> bool {
    forall|i: int| 0 <= i < s.len() ==> text::is_space(#[trigger] s[i])
}

/// Among the ASCII characters, white space is the space and the control characters
/// from the tabulator to the carriage return.
pub proof fn law_ascii_space(c: char)
    requires
        c <= '\u{7f}',
    ensures
        text::is_space(c) <==> c == ' ' || c == '\t' || c == '\n' || c == '\u{b}' || c == '\u{c}' || c
            == '\r',
{
}

/// Trimming the end takes away white space alone, and all of it.
pub proof fn law_trimmed_end(s: Seq<char>)
    ensures
        text::trimmed_end(s).len() <= s.len(),
        text::trimmed_end(s) == s.take(text::trimmed_end(s).len() as int),
        blank(s.skip(text::trimmed_end(s).len() as int)),
        text::trimmed_end(s).len() > 0 ==> !text::is_space(text::trimmed_end(s).last()),
    decreases s.len(),
{
    if s.len() > 0 && text::is_space(s.last()) {
        let t = s.drop_last();
        law_trimmed_end(t);
        let n = text::trimmed_end(t).len() as int;
        assert(t.take(n) =~= s.take(n));
        assert(s.skip(n) =~= t.skip(n).push(s.last()));
    } else {
        assert(s.take(s.len() as int) =~= s);
    }
}

/// Trimming takes away white space at both ends alone, and all of it.
pub proof fn law_trimmed(s: Seq<char>) -> (k: int)
    ensures
        0 <= k <= k + text::trimmed(s).len() <= s.len(),
        text::trimmed(s) == s.subrange(k, k + text::trimmed(s).len()),
        blank(s.take(k)),
        blank(s.skip(k + text::trimmed(s).len())),
        text::trimmed(s).len() > 0 ==> !text::is_space(text::trimmed(s)[0]) && !text::is_space(
            text::trimmed(s).last(),
        ),
    decreases s.len(),
{
    if s.len() > 0 && text::is_space(s[0]) {
        let t = s.drop_first();
        let k = law_trimmed(t);
        let n = text::trimmed(s).len() as int;
        assert(text::trimmed(s) == text::trimmed(t));
        assert(t.subrange(k, k + n) =~= s.subrange(k + 1, k + 1 + n));
        assert(s.take(k + 1) =~= seq![s[0]] + t.take(k));
        assert(t.skip(k + n) =~= s.skip(k + 1 + n));
        k + 1
    } else {
        law_trimmed_end(s);
        let n = text::trimmed(s).len() as int;
        assert(text::trimmed(s) == text::trimmed_end(s));
        assert(s.subrange(0, n) =~= s.take(n));
        assert(s.take(0) =~= Seq::<char>::empty());
        if n > 0 {
            assert(text::trimmed(s)[0] == s[0]);
        }
        0
    }
}

// ---------------------------------------------------------------------------
// Numbers
// ---------------------------------------------------------------------------

/// A digit behind a number makes it ten times as large, and adds its own value.
pub proof fn law_digit_behind(s: Seq<char>, c: char)
    requires
        text::is_digit(c),
    ensures
        text::digits_value(s.push(c)) == text::digits_value(s) * 10 + (c as int - '0' as int),
        text::digits_value(Seq::<char>::empty()) == 0,
{
    assert(s.push(c).drop_last() =~= s);
}

/// Numbers are written without needless zeros.
pub proof fn law_no_leading_zero(n: nat)
    requires
        n > 0,
    ensures
        text::dec(n)[0] != '0',
    decreases n,
{
    text::law_decimal_value(n);
    if n < 10 {
        reveal_strlit("1");
        reveal_strlit("2");
        reveal_strlit("3");
        reveal_strlit("4");
        reveal_strlit("5");
        reveal_strlit("6");
        reveal_strlit("7");
        reveal_strlit("8");
        reveal_strlit("9");
    } else {
        law_no_leading_zero(n / 10);
        text::law_decimal_value(n / 10);
    }
}

/// A negative number is written with a minus sign, and any other without a sign.
pub proof fn law_signed(n: int)
    ensures
        n >= 0 ==> text::dec_int(n) == text::dec(n as nat),
        n < 0 ==> text::dec_int(n) == seq!['-'] + text::dec((-n) as nat),
{
    reveal_strlit("-");
    assert("-"@ =~= seq!['-']);
}

/// Whether a text consists of decimal digits, of which there is one at least.
pub open spec fn decimal(d: Seq<char>) -> bool {
    d.len() > 0 && forall|i: int| 0 <= i < d.len() ==> '0' <= #[trigger] d[i] <= '9'
}

/// What reads as a number: digits, with a plus sign in front or without, whose value
/// is not above the limit. Their value is read. Nothing else is a number.
pub proof fn law_number_read(s: Seq<char>, d: Seq<char>, max: nat)
    requires
        s == d && (d.len() > 0 ==> d[0] != '+') || s == seq!['+'] + d,
    ensures
        decimal(d) && text::digits_value(d) <= max ==> text::number(s, max) == Some(
            text::digits_value(d),
        ),
        !(decimal(d) && text::digits_value(d) <= max) ==> text::number(s, max) is None,
{
    if s == seq!['+'] + d {
        assert(s.drop_first() =~= d);
    }
    assert(text::unsigned_digits(s) == d);
    if decimal(d) {
        assert(forall|i: int| 0 <= i < d.len() ==> text::is_digit(#[trigger] d[i]));
    } else if d.len() > 0 {
        let i = choose|i: int| 0 <= i < d.len() && !('0' <= #[trigger] d[i] <= '9');
        assert(!text::is_digit(d[i]));
    }
}

// ---------------------------------------------------------------------------
// Order and names
// ---------------------------------------------------------------------------

/// The order is that of a dictionary: behind what two texts have in common, the one
/// that ends there comes first, else the one with the smaller character.
pub proof fn law_dictionary_order(common: Seq<char>, a: Seq<char>, b: Seq<char>)
    ensures
        b.len() > 0 ==> text::before(common, common + b),
        !text::before(common + b, common),
        a.len() > 0 && b.len() > 0 && a[0] != b[0] ==> (text::before(common + a, common + b)
            <==> a[0] < b[0]),
{
    let n = common.len() as int;
    assert(common.take(n) =~= common);
    assert((common + a).take(n) =~= common);
    assert((common + b).take(n) =~= common);
    lemma_common(common, common + a, common + b, 0);
    lemma_common(common, common, common + b, 0);
    lemma_common(common, common + b, common, 0);
    if a.len() > 0 {
        assert((common + a)[n] == a[0]);
    }
    if b.len() > 0 {
        assert((common + b)[n] == b[0]);
    }
}

proof fn lemma_common(common: Seq<char>, a: Seq<char>, b: Seq<char>, i: int)
    requires
        0 <= i <= common.len() <= a.len(),
        common.len() <= b.len(),
        a.take(common.len() as int) == common,
        b.take(common.len() as int) == common,
    ensures
        text::before_from(a, b, i) == text::before_from(a, b, common.len() as int),
    decreases common.len() - i,
{
    if i < common.len() {
        assert(a[i] == a.take(common.len() as int)[i]);
        assert(b[i] == b.take(common.len() as int)[i]);
        lemma_common(common, a, b, i + 1);
    }
}

/// Among the ASCII characters, names are made of letters, digits and underscores.
pub proof fn law_ascii_names(c: char)
    requires
        c <= '\u{7f}',
    ensures
        text::in_name(c) <==> ('a' <= c <= 'z' || 'A' <= c <= 'Z' || '0' <= c <= '9' || c == '_'),
{
}

/// A name is mentioned where it stands by itself: with no character of a name on
/// either side. Inside a longer name it is not.
pub proof fn law_mentioned(a: Seq<char>, name: Seq<char>, b: Seq<char>)
    requires
        a.len() > 0 ==> !text::in_name(a.last()),
        b.len() > 0 ==> !text::in_name(b[0]),
    ensures
        text::mentions(a + name + b, name),
{
    let s = a + name + b;
    let i = a.len() as int;
    assert(s.subrange(i, i + name.len()) =~= name);
    assert(text::named_at(s, name, i));
}

/// Where a name is mentioned, there are such a text before it and such a text
/// behind it.
pub proof fn law_mention_stands_alone(s: Seq<char>, name: Seq<char>) -> (parts: (Seq<char>, Seq<char>))
    requires
        text::mentions(s, name),
    ensures
        s == parts.0 + name + parts.1,
        parts.0.len() > 0 ==> !text::in_name(parts.0.last()),
        parts.1.len() > 0 ==> !text::in_name(parts.1[0]),
{
    let i = choose|i: int| text::named_at(s, name, i);
    let a = s.take(i);
    let b = s.skip(i + name.len());
    assert(s =~= a + s.subrange(i, i + name.len()) + b);
    (a, b)
}

/// A text begins with another exactly where it is that text with something behind.
pub proof fn law_begins_with(prefix: Seq<char>, rest: Seq<char>, s: Seq<char>)
    ensures
        text::begins_with(prefix + rest, prefix),
        text::begins_with(s, prefix) ==> s == prefix + s.skip(prefix.len() as int),
{
    assert((prefix + rest).subrange(0, prefix.len() as int) =~= prefix);
    if text::begins_with(s, prefix) {
        assert(s =~= s.subrange(0, prefix.len() as int) + s.skip(prefix.len() as int));
    }
}

} // verus!
