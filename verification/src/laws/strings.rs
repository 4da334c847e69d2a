//! String literals and JSON strings.

use vstd::prelude::*;

use crate::codegen::exprs;
use crate::json;
use crate::text;

verus! {

/// Whether a text holds no control character, and so no line break.
pub open spec fn on_one_line(s: Seq<char>) -> bool {
    forall|i: int| 0 <= i < s.len() ==> (#[trigger] s[i]) >= ' '
}

proof fn lemma_char_on_one_line(c: char)
    ensures
        on_one_line(json::escaped_char(c)),
{
    let n = c as int;
    assert(json::hex_digit(n % 16) >= ' ');
    if n < 0x20 {
        assert(0 <= n / 16 < 2);
        assert(json::hex_digit(n / 16) >= ' ');
    }
    assert forall|i: int| 0 <= i < json::escaped_char(c).len() implies (
    #[trigger] json::escaped_char(c)[i]) >= ' ' by {}
}

proof fn lemma_escaped_on_one_line(s: Seq<char>)
    ensures
        on_one_line(json::escaped(s)),
    decreases s.len(),
{
    if s.len() > 0 {
        let front = json::escaped(s.drop_last());
        let back = json::escaped_char(s.last());
        lemma_escaped_on_one_line(s.drop_last());
        lemma_char_on_one_line(s.last());
        assert forall|i: int| 0 <= i < json::escaped(s).len() implies (#[trigger] json::escaped(
            s,
        )[i]) >= ' ' by {
            if i < front.len() {
                assert(json::escaped(s)[i] == front[i]);
            } else {
                assert(json::escaped(s)[i] == back[i - front.len()]);
            }
        }
    }
}

/// A JSON string holds no control character, whatever the text.
pub proof fn law_json_string_on_one_line(s: Seq<char>)
    ensures
        on_one_line(json::string_text(s)),
{
    let inside = json::escaped(s);
    lemma_escaped_on_one_line(s);
    assert forall|i: int| 0 <= i < json::string_text(s).len() implies (
    #[trigger] json::string_text(s)[i]) >= ' ' by {
        if 0 < i <= inside.len() {
            assert(json::string_text(s)[i] == inside[i - 1]);
        }
    }
}

proof fn lemma_replaced_on_one_line(s: Seq<char>, part: Seq<char>, new: Seq<char>, i: int)
    requires
        0 <= i,
        on_one_line(s),
        on_one_line(new),
    ensures
        on_one_line(text::replaced_from(s, part, new, i)),
    decreases s.len() - i,
{
    if i < s.len() && part.len() > 0 {
        if text::stands_at(s, part, i) {
            lemma_replaced_on_one_line(s, part, new, i + part.len());
        } else {
            lemma_replaced_on_one_line(s, part, new, i + 1);
            assert(s[i] >= ' ');
        }
    }
}

/// A string literal stays on one line of C, whatever the text.
pub proof fn law_string_literal_on_one_line(value: Seq<char>)
    ensures
        on_one_line(exprs::string_c(value)),
{
    law_json_string_on_one_line(value);
    reveal_strlit("\\x1b");
    lemma_replaced_on_one_line(json::string_text(value), "\\u001b"@, "\\x1b"@, 0);
}

proof fn lemma_escaped_front(s: Seq<char>)
    requires
        s.len() > 0,
    ensures
        json::escaped(s) == json::escaped_char(s[0]) + json::escaped(s.drop_first()),
    decreases s.len(),
{
    if s.len() == 1 {
        assert(s.drop_last() =~= Seq::<char>::empty());
        assert(s.drop_first() =~= Seq::<char>::empty());
        assert(json::escaped(s) =~= json::escaped_char(s[0]) + json::escaped(s.drop_first()));
    } else {
        lemma_escaped_front(s.drop_last());
        assert(s.drop_last().drop_first() =~= s.drop_first().drop_last());
        assert(s.drop_first().last() == s.last());
        assert(json::escaped(s) =~= json::escaped_char(s[0]) + json::escaped(s.drop_first()));
    }
}

/// The escape of a character is no beginning of that of another.
proof fn lemma_escapes_differ(a: char, b: char, x: Seq<char>, y: Seq<char>)
    requires
        json::escaped_char(a) + x == json::escaped_char(b) + y,
    ensures
        a == b,
        x == y,
{
    let e = json::escaped_char(a);
    let f = json::escaped_char(b);
    let all = e + x;
    assert(all[0] == e[0] && (f + y)[0] == f[0]);
    if e.len() > 1 && f.len() > 1 {
        assert(all[1] == e[1] && (f + y)[1] == f[1]);
        if e.len() == 6 && f.len() == 6 {
            assert(all[4] == e[4] && (f + y)[4] == f[4]);
            assert(all[5] == e[5] && (f + y)[5] == f[5]);
        }
    }
    assert(a == b);
    assert(x =~= all.skip(e.len() as int));
    assert(y =~= (f + y).skip(f.len() as int));
}

proof fn lemma_escaped_differ(s: Seq<char>, t: Seq<char>)
    requires
        json::escaped(s) == json::escaped(t),
    ensures
        s == t,
    decreases s.len(),
{
    if s.len() > 0 {
        lemma_escaped_front(s);
    }
    if t.len() > 0 {
        lemma_escaped_front(t);
    }
    if s.len() == 0 || t.len() == 0 {
        assert(s =~= t);
    } else {
        lemma_escapes_differ(
            s[0],
            t[0],
            json::escaped(s.drop_first()),
            json::escaped(t.drop_first()),
        );
        lemma_escaped_differ(s.drop_first(), t.drop_first());
        assert(s =~= seq![s[0]] + s.drop_first());
        assert(t =~= seq![t[0]] + t.drop_first());
    }
}

/// A JSON string tells its text: different texts give different strings.
pub proof fn law_json_string_tells_text(s: Seq<char>, t: Seq<char>)
    requires
        json::string_text(s) == json::string_text(t),
    ensures
        s == t,
{
    let a = json::string_text(s);
    let b = json::string_text(t);
    assert(json::escaped(s) =~= a.subrange(1, a.len() - 1));
    assert(json::escaped(t) =~= b.subrange(1, b.len() - 1));
    lemma_escaped_differ(s, t);
}

/// How each character stands in a JSON string: quotes, backslashes and control characters
/// behind a backslash, all others as they are.
pub proof fn law_json_characters(c: char)
    ensures
        c == '"' ==> json::escaped_char(c) == seq!['\\', '"'],
        c == '\\' ==> json::escaped_char(c) == seq!['\\', '\\'],
        c == '\n' ==> json::escaped_char(c) == seq!['\\', 'n'],
        c == '\r' ==> json::escaped_char(c) == seq!['\\', 'r'],
        c == '\t' ==> json::escaped_char(c) == seq!['\\', 't'],
        c == '\u{8}' ==> json::escaped_char(c) == seq!['\\', 'b'],
        c == '\u{c}' ==> json::escaped_char(c) == seq!['\\', 'f'],
        c == '\u{1b}' ==> json::escaped_char(c) == seq!['\\', 'u', '0', '0', '1', 'b'],
        c >= ' ' && c != '"' && c != '\\' ==> json::escaped_char(c) == seq![c],
{
}

/// A JSON string is made of its characters, one after the other, between quotes.
pub proof fn law_json_string_in_parts(s: Seq<char>, c: char)
    ensures
        json::string_text(s) == seq!['"'] + json::escaped(s) + seq!['"'],
        json::escaped(s.push(c)) == json::escaped(s) + json::escaped_char(c),
        json::escaped(Seq::empty()) == Seq::<char>::empty(),
{
    assert(s.push(c).drop_last() =~= s);
}

} // verus!
