//! The generator: what the finished text looks like.

use vstd::prelude::*;

use crate::ast;
use crate::ast::Item;
use crate::codegen::c;
use crate::codegen::model;
use crate::codegen::runtime;
use crate::codegen::typedefs;
use crate::laws::program;
use crate::laws::statements;
use crate::source::{Span, Spanned};
use crate::text;

verus! {

proof fn lemma_trimmed(s: Seq<char>)
    ensures
        text::trimmed_end(s).len() <= s.len(),
        text::trimmed_end(s) == s.take(text::trimmed_end(s).len() as int),
        text::trimmed_end(s).len() > 0 ==> !text::is_space(text::trimmed_end(s).last()),
        forall|k: int|
            0 <= k < s.len() && !text::is_space(#[trigger] s[k]) ==> k < text::trimmed_end(s).len(),
    decreases s.len(),
{
    if s.len() > 0 && text::is_space(s.last()) {
        let t = s.drop_last();
        lemma_trimmed(t);
        assert(t.take(text::trimmed_end(t).len() as int) =~= s.take(
            text::trimmed_end(t).len() as int,
        ));
        assert forall|k: int| 0 <= k < s.len() && !text::is_space(#[trigger] s[k]) implies k
            < text::trimmed_end(s).len() by {
            assert(t[k] == s[k]);
        }
    } else {
        assert(s.take(s.len() as int) =~= s);
    }
}

proof fn lemma_stands_before(s: Seq<char>, t: Seq<char>, part: Seq<char>, p: int)
    requires
        text::stands_at(s, part, p),
        t == s.take(t.len() as int),
        t.len() <= s.len(),
        p + part.len() <= t.len(),
    ensures
        text::stands_at(t, part, p),
{
    assert(t.subrange(p, p + part.len()) =~= s.subrange(p, p + part.len()));
}

/// Where a part of a list stands in the joined text.
proof fn lemma_joined_at(parts: Seq<Seq<char>>, sep: Seq<char>, i: int) -> (p: int)
    requires
        0 <= i < parts.len(),
    ensures
        text::stands_at(text::joined(parts, sep), parts[i], p),
    decreases parts.len(),
{
    let all = text::joined(parts, sep);
    if parts.len() == 1 {
        assert(all.subrange(0, all.len() as int) =~= parts[0]);
        0
    } else {
        let front = text::joined(parts.drop_last(), sep);
        if i == parts.len() - 1 {
            let p = (front.len() + sep.len()) as int;
            assert(all.subrange(p, p + parts[i].len()) =~= parts[i]);
            p
        } else {
            let p = lemma_joined_at(parts.drop_last(), sep, i);
            assert(parts.drop_last()[i] == parts[i]);
            assert(all.subrange(p, p + parts[i].len()) =~= front.subrange(p, p + parts[i].len()));
            p
        }
    }
}

proof fn lemma_joined_front(parts: Seq<Seq<char>>, sep: Seq<char>)
    requires
        parts.len() >= 3,
    ensures
        text::begins_with(
            text::joined(parts, sep),
            parts[0] + sep + parts[1] + sep + parts[2],
        ),
    decreases parts.len(),
{
    let all = text::joined(parts, sep);
    let front = text::joined(parts.drop_last(), sep);
    let wanted = parts[0] + sep + parts[1] + sep + parts[2];
    if parts.len() == 3 {
        let two = parts.drop_last();
        assert(two.drop_last().len() == 1);
        assert(text::joined(two.drop_last(), sep) == two.drop_last()[0]);
        assert(front == parts[0] + sep + parts[1]);
        assert(all.subrange(0, wanted.len() as int) =~= wanted);
    } else {
        lemma_joined_front(parts.drop_last(), sep);
        assert(parts.drop_last()[0] == parts[0] && parts.drop_last()[1] == parts[1]
            && parts.drop_last()[2] == parts[2]);
        assert(all.subrange(0, wanted.len() as int) =~= front.subrange(0, wanted.len() as int));
    }
}

/// A generated program ends in exactly one line break, with no white space before
/// it.
pub proof fn law_ends_in_one_line_break(st: model::State)
    ensures
        c::finished(st).len() > 0,
        c::finished(st).last() == '\n',
        c::finished(st).len() > 1 ==> !text::is_space(
            c::finished(st)[c::finished(st).len() - 2],
        ),
{
    let all = text::joined(
        if st.tls {
            seq!["#define __XLANG_TLS__ 1"@] + st.lines
        } else {
            st.lines
        },
        "\n"@,
    );
    lemma_trimmed(all);
    reveal_strlit("\n");
}

/// Every line that was written stands in the finished text, if it does not end in
/// white space.
pub proof fn law_lines_stand_in_text(st: model::State, i: int)
    requires
        0 <= i < st.lines.len(),
        st.lines[i].len() > 0,
        !text::is_space(st.lines[i].last()),
    ensures
        text::occurs(c::finished(st), st.lines[i]),
{
    let lines = if st.tls {
        seq!["#define __XLANG_TLS__ 1"@] + st.lines
    } else {
        st.lines
    };
    let k = if st.tls {
        i + 1
    } else {
        i
    };
    let line = st.lines[i];
    let all = text::joined(lines, "\n"@);
    assert(lines[k] == line);
    let p = lemma_joined_at(lines, "\n"@, k);
    lemma_trimmed(all);
    let last = p + line.len() - 1;
    assert(all.subrange(p, p + line.len())[line.len() - 1] == all[last]);
    assert(!text::is_space(all[last]));
    let t = text::trimmed_end(all);
    lemma_stands_before(all, t, line, p);
    assert(c::finished(st).take(t.len() as int) =~= t);
    assert(c::finished(st).subrange(p, p + line.len()) =~= t.subrange(p, p + line.len()));
    assert(text::stands_at(c::finished(st), line, p));
}

proof fn lemma_with_lines_front(st: model::State, lines: Seq<Seq<char>>, i: int)
    ensures
        statements::grown(st, model::with_lines(st, lines, i)),
        0 <= i < lines.len() ==> model::with_lines(st, lines, i).lines.len() > st.lines.len(),
        0 <= i < lines.len() ==> model::with_lines(st, lines, i).lines[st.lines.len() as int]
            == st.pad + lines[i],
    decreases lines.len() - i,
{
    if 0 <= i < lines.len() {
        let next = model::emitted(st, lines[i]);
        lemma_with_lines_front(next, lines, i + 1);
        assert(next.lines[st.lines.len() as int] == st.pad + lines[i]);
    }
}

proof fn lemma_first_of_preamble()
    ensures
        runtime::preamble().len() >= 3,
        runtime::preamble()[0] == "#include <stdint.h>"@,
        runtime::preamble()[1] == "#include <stdbool.h>"@,
        runtime::preamble()[2] == "#include <stddef.h>"@,
{
    let a = "#include <stdint.h>"@;
    let b = "#include <stdbool.h>"@;
    let c = "#include <stddef.h>"@;
    reveal(runtime::preamble);
    reveal_strlit("#include <stdint.h>");
    reveal_strlit("#include <stdbool.h>");
    reveal_strlit("#include <stddef.h>");
    text::lemma_lines(a);
    text::lemma_lines(b);
    text::lemma_lines(c);
    reveal_with_fuel(runtime::lines_before, 4);
    assert(runtime::piece_text(runtime::PIECES@[0]) == a);
    assert(runtime::piece_text(runtime::PIECES@[1]) == b);
    assert(runtime::piece_text(runtime::PIECES@[2]) == c);
    let three = runtime::lines_before(3);
    assert(three =~= seq![a, b, c]);
    let all = runtime::lines_before(runtime::PIECES@.len() as int);
    runtime::lemma_lines_before(3, runtime::PIECES@.len() as int);
    assert(all[0] == three[0] && all[1] == three[1] && all[2] == three[2]);
}

proof fn lemma_first_lines(types: Map<Span, ast::Type>, items: Seq<Spanned<Item>>)
    requires
        c::written(model::fresh(types), items) is Ok,
    ensures
        c::written(model::fresh(types), items)->Ok_0.lines.len() >= 3,
        c::written(model::fresh(types), items)->Ok_0.lines[0] == "#include <stdint.h>"@,
        c::written(model::fresh(types), items)->Ok_0.lines[1] == "#include <stdbool.h>"@,
        c::written(model::fresh(types), items)->Ok_0.lines[2] == "#include <stddef.h>"@,
{
    let st = model::fresh(types);
    let pre = runtime::preamble();
    lemma_first_of_preamble();
    reveal_strlit("");
    let known = model::with_decls(st, model::with_program(st.ctx.decls, items));
    let one = model::emitted(known, pre[0]);
    let two = model::emitted(one, pre[1]);
    let three = model::emitted(two, pre[2]);
    assert(""@ + pre[0] =~= pre[0]);
    assert(""@ + pre[1] =~= pre[1]);
    assert(""@ + pre[2] =~= pre[2]);
    assert(three.lines[0] == pre[0] && three.lines[1] == pre[1] && three.lines[2] == pre[2]);
    reveal_with_fuel(model::with_lines, 4);
    assert(model::with_lines(known, pre, 0) == model::with_lines(three, pre, 3));
    lemma_with_lines_front(three, pre, 3);
    let a = model::with_lines(known, pre, 0);
    let defs = typedefs::program_defs(known.ctx.decls, items)->Ok_0;
    lemma_with_lines_front(a, defs, 0);
    let b = model::with_lines(a, defs, 0);
    let begun = c::spaced(b);
    model::lemma_with_lines(known, pre, 0);
    model::lemma_with_lines(a, defs, 0);
    program::lemma_prototypes(begun, items, 0);
    let head = program::head_of(st, items)->Ok_0;
    program::lemma_functions(model::emitted(head, ""@), items, 0);
    let after = c::written(st, items)->Ok_0;
    assert(statements::grown(three, a));
    assert(statements::grown(a, b));
    assert(statements::grown(b, begun));
    assert(statements::grown(begun, head));
    assert(statements::grown(head, model::emitted(head, ""@)));
    assert(statements::grown(model::emitted(head, ""@), after));
    assert(after.lines[0] == three.lines[0] && after.lines[1] == three.lines[1] && after.lines[2]
        == three.lines[2]);
}

/// The TLS part of the runtime is behind a macro: a program in which a TLS call
/// was noted starts by defining the macro, and any other starts with the headers
/// and so leaves it undefined.
pub proof fn law_tls_macro_comes_first(
    types: Map<Span, ast::Type>,
    items: Seq<Spanned<Item>>,
)
    requires
        c::written(model::fresh(types), items) is Ok,
    ensures
        c::written(model::fresh(types), items)->Ok_0.tls ==> text::begins_with(
            c::program_c(model::fresh(types), items)->Ok_0,
            "#define __XLANG_TLS__ 1"@ + "\n"@ + "#include <stdint.h>"@ + "\n"@
                + "#include <stdbool.h>"@,
        ),
        !c::written(model::fresh(types), items)->Ok_0.tls ==> text::begins_with(
            c::program_c(model::fresh(types), items)->Ok_0,
            "#include <stdint.h>"@ + "\n"@ + "#include <stdbool.h>"@ + "\n"@
                + "#include <stddef.h>"@,
        ),
{
    let st = c::written(model::fresh(types), items)->Ok_0;
    lemma_first_lines(types, items);
    let lines = if st.tls {
        seq!["#define __XLANG_TLS__ 1"@] + st.lines
    } else {
        st.lines
    };
    let all = text::joined(lines, "\n"@);
    lemma_joined_front(lines, "\n"@);
    lemma_trimmed(all);
    let wanted = lines[0] + "\n"@ + lines[1] + "\n"@ + lines[2];
    reveal_strlit("#include <stddef.h>");
    reveal_strlit("#include <stdbool.h>");
    let last = wanted.len() - 1;
    assert(wanted[last] == '>');
    assert(all.subrange(0, wanted.len() as int)[last] == all[last]);
    assert(!text::is_space(all[last]));
    let t = text::trimmed_end(all);
    lemma_stands_before(all, t, wanted, 0);
    let done = c::finished(st);
    assert(done.subrange(0, wanted.len() as int) =~= t.subrange(0, wanted.len() as int));
}

} // verus!
