//! The runtime: what it defines, and for which system.

use vstd::prelude::*;

use crate::codegen::builtins;
use crate::codegen::runtime;
use crate::text;

verus! {

/// The line that opens the `i`-th piece of the runtime.
pub open spec fn opening(i: int) -> Seq<char> {
    text::lines_of(runtime::piece_text(runtime::PIECES@[i]))[0]
}

/// No function of the runtime is `static`, so that one that is not used does not
/// call forth a warning: the line that opens its definition stands among the lines
/// of the runtime and does not begin so.
pub proof fn law_no_static_function(i: int)
    requires
        0 <= i < runtime::PIECES@.len(),
        runtime::PIECES@[i].1@ != ""@,
    ensures
        runtime::preamble().contains(opening(i)),
        !text::begins_with(opening(i), "static"@),
{
    lemma_opening(i);
    let line = opening(i);
    let whole = runtime::piece_text(runtime::PIECES@[i]);
    text::lemma_lines(whole);
    lemma_not_static(i);
    if text::begins_with(line, "static"@) {
        let n = "static"@.len() as int;
        assert(whole.subrange(0, n) =~= line.subrange(0, n));
    }
}

/// The lines of each piece stand among the lines of the runtime.
proof fn lemma_opening(i: int)
    requires
        0 <= i < runtime::PIECES@.len(),
    ensures
        runtime::preamble().contains(opening(i)),
{
    reveal(runtime::preamble);
    let n = runtime::PIECES@.len() as int;
    text::lemma_lines(runtime::piece_text(runtime::PIECES@[i]));
    runtime::lemma_lines_before(i + 1, n);
    let at = runtime::lines_before(i).len() as int;
    assert(runtime::lines_before(i + 1)[at] == opening(i));
    assert(runtime::lines_before(n)[at] == runtime::lines_before(i + 1)[at]);
}

proof fn lemma_not_static(i: int)
    requires
        0 <= i < runtime::PIECES@.len(),
        runtime::PIECES@[i].1@ != ""@,
    ensures
        !text::begins_with(runtime::piece_text(runtime::PIECES@[i]), "static"@),
{
    reveal_strlit("static");
    reveal_strlit("char*");
    reveal_strlit("const char*");
    reveal_strlit("double");
    reveal_strlit("int32_t");
    reveal_strlit("void");
    assert(forall|k: int|
        0 <= k < runtime::PIECES@.len() ==> (#[trigger] runtime::PIECES@[k]).1@ == ""@
            || runtime::PIECES@[k].0@ == "char*"@ || runtime::PIECES@[k].0@ == "const char*"@
            || runtime::PIECES@[k].0@ == "double"@ || runtime::PIECES@[k].0@ == "int32_t"@
            || runtime::PIECES@[k].0@ == "void"@);
    let result = runtime::PIECES@[i].0@;
    let t = runtime::piece_text(runtime::PIECES@[i]);
    assert(t[0] == result[0]);
    if text::begins_with(t, "static"@) {
        assert(t.subrange(0, "static"@.len() as int)[0] == t[0]);
    }
}

/// The part of the runtime for networking, files and processes is for Linux alone:
/// the test for it stands before that part, the end of the test behind it, and
/// behind that an empty line only.
pub proof fn law_networking_is_for_linux()
    ensures
        runtime::piece_text(runtime::PIECES@[runtime::GUARD as int]) == "#if defined(__linux__)"@,
        runtime::piece_text(runtime::PIECES@[runtime::GUARD_END as int]) == "#endif"@,
        runtime::GUARD < runtime::GUARD_END,
        runtime::GUARD_END + 2 == runtime::PIECES@.len(),
        runtime::piece_text(runtime::PIECES@[runtime::GUARD_END + 1]) == ""@,
{
}

/// For each builtin without arguments, where the runtime defines what it calls.
pub const PLAIN_HOMES: [usize; 27] = [
    0, 0, 122, 123, 128, 133, 134, 110, 0, 31, 66, 68, 70, 0, 75, 85, 87, 0, 158, 162, 164, 165,
    104, 15, 0, 0, 173,
];

/// For each builtin with arguments, where the runtime defines what it calls.
pub const CALL_HOMES: [usize; 140] = [
    0, 0, 0, 13, 14, 11, 38, 0, 0, 17, 30, 28, 24, 19, 26, 20, 22, 53, 54, 10, 0, 34, 35, 43,
    44, 45, 46, 81, 83, 184, 186, 190, 188, 192, 47, 52, 36, 77, 79, 0, 37, 40, 41, 42, 51, 49,
    55, 57, 59, 0, 0, 147, 149, 150, 151, 155, 157, 153, 0, 0, 0, 0, 0, 0, 0, 0, 0, 69, 71, 138,
    159, 160, 163, 0, 0, 0, 136, 0, 0, 0, 0, 148, 0, 0, 0, 0, 0, 0, 0, 0, 32, 33, 91, 93, 95, 0,
    96, 98, 100, 102, 0, 0, 111, 112, 113, 114, 115, 116, 137, 117, 118, 120, 125, 126, 127,
    130, 132, 129, 140, 141, 142, 144, 0, 106, 108, 61, 63, 65, 72, 74, 146, 167, 169, 171, 178,
    179, 180, 182, 0, 0,
];

/// Every function of the runtime that a builtin becomes a call of is defined.
pub proof fn law_builtins_are_defined(i: int)
    ensures
        0 <= i < builtins::PLAIN_CALLS@.len() && builtins::PLAIN_CALLS@[i].2@ != ""@
            ==> runtime::defines(builtins::PLAIN_CALLS@[i].2@),
        0 <= i < builtins::CALLS@.len() && builtins::CALLS@[i].3@ != ""@ ==> runtime::defines(
            builtins::CALLS@[i].3@,
        ),
{
    assert(forall|k: int|
        0 <= k < builtins::PLAIN_CALLS@.len() ==> (#[trigger] builtins::PLAIN_CALLS@[k]).2@ == ""@
            || runtime::PIECES@[PLAIN_HOMES@[k] as int].1@ == builtins::PLAIN_CALLS@[k].2@);
    assert(forall|k: int|
        0 <= k < builtins::CALLS@.len() ==> (#[trigger] builtins::CALLS@[k]).3@ == ""@
            || runtime::PIECES@[CALL_HOMES@[k] as int].1@ == builtins::CALLS@[k].3@);
}

/// Whether a text holds no name of the runtime.
pub open spec fn foreign(s: Seq<char>) -> bool {
    !text::occurs(s, "__xlang_"@)
}

/// Whether a text reads a variable of the runtime.
pub open spec fn reads_variable(s: Seq<char>) -> bool {
    ||| s == "(__xlang_argc_g)"@
    ||| s == "__xlang_argv_g["@
    ||| s == "((int32_t)(unsigned char)__xlang_rbuf["@
}

/// Whether no two underscores stand side by side in the first `n` characters.
spec fn calm(s: Seq<char>, n: int) -> bool
    decreases n,
{
    n < 2 || (!(s[n - 1] == '_' && s[n - 2] == '_') && calm(s, n - 1))
}

proof fn lemma_calm_at(s: Seq<char>, n: int, i: int)
    requires
        calm(s, n),
        0 <= i < n - 1,
    ensures
        !(s[i] == '_' && s[i + 1] == '_'),
    decreases n,
{
    if i < n - 2 {
        lemma_calm_at(s, n - 1, i);
    }
}

proof fn lemma_calm(s: Seq<char>)
    ensures
        calm(s, s.len() as int) ==> foreign(s),
{
    reveal_strlit("__xlang_");
    if calm(s, s.len() as int) && text::occurs(s, "__xlang_"@) {
        let i = choose|i: int| text::stands_at(s, "__xlang_"@, i);
        let part = s.subrange(i, i + "__xlang_"@.len());
        assert(part[0] == s[i] && part[1] == s[i + 1]);
        lemma_calm_at(s, s.len() as int, i);
    }
}

proof fn lemma_foreign_0()
    ensures
        foreign(""@),
        foreign("("@),
        foreign("(("@),
        foreign("((int32_t)("@),
        foreign("()"@),
        foreign("(), 0)"@),
        foreign("(double)("@),
        foreign("(getenv("@),
        foreign("(int32_t)(rand() % ("@),
        foreign("(int32_t)(unsigned char)("@),
        foreign("(int32_t)strcmp("@),
        foreign("(int32_t)strlen("@),
{
    reveal_with_fuel(calm, 28);
    reveal_strlit("");
    lemma_calm(""@);
    reveal_strlit("(");
    lemma_calm("("@);
    reveal_strlit("((");
    lemma_calm("(("@);
    reveal_strlit("((int32_t)(");
    lemma_calm("((int32_t)("@);
    reveal_strlit("()");
    lemma_calm("()"@);
    reveal_strlit("(), 0)");
    lemma_calm("(), 0)"@);
    reveal_strlit("(double)(");
    lemma_calm("(double)("@);
    reveal_strlit("(getenv(");
    lemma_calm("(getenv("@);
    reveal_strlit("(int32_t)(rand() % (");
    lemma_calm("(int32_t)(rand() % ("@);
    reveal_strlit("(int32_t)(unsigned char)(");
    lemma_calm("(int32_t)(unsigned char)("@);
    reveal_strlit("(int32_t)strcmp(");
    lemma_calm("(int32_t)strcmp("@);
    reveal_strlit("(int32_t)strlen(");
    lemma_calm("(int32_t)strlen("@);
}

proof fn lemma_foreign_1()
    ensures
        foreign("(int32_t)strtol("@),
        foreign("(int64_t)("@),
        foreign("(strcmp("@),
        foreign("(unsigned)sleep(("@),
        foreign(") & 0xff)))"@),
        foreign(") : \"\")"@),
        foreign(") << 8) | (("@),
        foreign(") == 0)"@),
        foreign(") ? \"true\" : \"false\")"@),
        foreign(") ? getenv("@),
        foreign(")"@),
        foreign("))"@),
{
    reveal_with_fuel(calm, 28);
    reveal_strlit("(int32_t)strtol(");
    lemma_calm("(int32_t)strtol("@);
    reveal_strlit("(int64_t)(");
    lemma_calm("(int64_t)("@);
    reveal_strlit("(strcmp(");
    lemma_calm("(strcmp("@);
    reveal_strlit("(unsigned)sleep((");
    lemma_calm("(unsigned)sleep(("@);
    reveal_strlit(") & 0xff)))");
    lemma_calm(") & 0xff)))"@);
    reveal_strlit(") : \"\")");
    lemma_calm(") : \"\")"@);
    reveal_strlit(") << 8) | ((");
    lemma_calm(") << 8) | (("@);
    reveal_strlit(") == 0)");
    lemma_calm(") == 0)"@);
    reveal_strlit(") ? \"true\" : \"false\")");
    lemma_calm(") ? \"true\" : \"false\")"@);
    reveal_strlit(") ? getenv(");
    lemma_calm(") ? getenv("@);
    reveal_strlit(")");
    lemma_calm(")"@);
    reveal_strlit("))");
    lemma_calm("))"@);
}

proof fn lemma_foreign_2()
    ensures
        foreign("), ("@),
        foreign("), 0)"@),
        foreign("), 0644)"@),
        foreign("), \"assertion failed\"), 0)"@),
        foreign(").len)"@),
        foreign(", "@),
        foreign(", ((("@),
        foreign(", (size_t)("@),
        foreign(", -1, "@),
        foreign(", 0)"@),
        foreign(", 0, 0)"@),
        foreign(", 0, 10)"@),
{
    reveal_with_fuel(calm, 31);
    reveal_strlit("), (");
    lemma_calm("), ("@);
    reveal_strlit("), 0)");
    lemma_calm("), 0)"@);
    reveal_strlit("), 0644)");
    lemma_calm("), 0644)"@);
    reveal_strlit("), \"assertion failed\"), 0)");
    lemma_calm("), \"assertion failed\"), 0)"@);
    reveal_strlit(").len)");
    lemma_calm(").len)"@);
    reveal_strlit(", ");
    lemma_calm(", "@);
    reveal_strlit(", (((");
    lemma_calm(", ((("@);
    reveal_strlit(", (size_t)(");
    lemma_calm(", (size_t)("@);
    reveal_strlit(", -1, ");
    lemma_calm(", -1, "@);
    reveal_strlit(", 0)");
    lemma_calm(", 0)"@);
    reveal_strlit(", 0, 0)");
    lemma_calm(", 0, 0)"@);
    reveal_strlit(", 0, 10)");
    lemma_calm(", 0, 10)"@);
}

proof fn lemma_foreign_3()
    ensures
        foreign(", 0, 8)"@),
        foreign(", 0644)"@),
        foreign(", 0755)"@),
        foreign(", SHUT_WR)"@),
        foreign(", strlen("@),
        foreign("["@),
        foreign("[0])"@),
        foreign("]"@),
        foreign("])"@),
        foreign("accept("@),
        foreign("chdir(("@),
        foreign("chmod(("@),
{
    reveal_with_fuel(calm, 13);
    reveal_strlit(", 0, 8)");
    lemma_calm(", 0, 8)"@);
    reveal_strlit(", 0644)");
    lemma_calm(", 0644)"@);
    reveal_strlit(", 0755)");
    lemma_calm(", 0755)"@);
    reveal_strlit(", SHUT_WR)");
    lemma_calm(", SHUT_WR)"@);
    reveal_strlit(", strlen(");
    lemma_calm(", strlen("@);
    reveal_strlit("[");
    lemma_calm("["@);
    reveal_strlit("[0])");
    lemma_calm("[0])"@);
    reveal_strlit("]");
    lemma_calm("]"@);
    reveal_strlit("])");
    lemma_calm("])"@);
    reveal_strlit("accept(");
    lemma_calm("accept("@);
    reveal_strlit("chdir((");
    lemma_calm("chdir(("@);
    reveal_strlit("chmod((");
    lemma_calm("chmod(("@);
}

proof fn lemma_foreign_4()
    ensures
        foreign("chown("@),
        foreign("chroot("@),
        foreign("close("@),
        foreign("exit("@),
        foreign("fflush(stdout)"@),
        foreign("fork()"@),
        foreign("fprintf(stderr, \"%d\\n\", "@),
        foreign("fprintf(stderr, \"%f\\n\", "@),
        foreign("fprintf(stderr, \"%s\", "@),
        foreign("fprintf(stderr, \"%s\\n\", "@),
        foreign("fprintf(stderr, \"%s\\n\", ("@),
        foreign("getgid()"@),
{
    reveal_with_fuel(calm, 31);
    reveal_strlit("chown(");
    lemma_calm("chown("@);
    reveal_strlit("chroot(");
    lemma_calm("chroot("@);
    reveal_strlit("close(");
    lemma_calm("close("@);
    reveal_strlit("exit(");
    lemma_calm("exit("@);
    reveal_strlit("fflush(stdout)");
    lemma_calm("fflush(stdout)"@);
    reveal_strlit("fork()");
    lemma_calm("fork()"@);
    reveal_strlit("fprintf(stderr, \"%d\\n\", ");
    lemma_calm("fprintf(stderr, \"%d\\n\", "@);
    reveal_strlit("fprintf(stderr, \"%f\\n\", ");
    lemma_calm("fprintf(stderr, \"%f\\n\", "@);
    reveal_strlit("fprintf(stderr, \"%s\", ");
    lemma_calm("fprintf(stderr, \"%s\", "@);
    reveal_strlit("fprintf(stderr, \"%s\\n\", ");
    lemma_calm("fprintf(stderr, \"%s\\n\", "@);
    reveal_strlit("fprintf(stderr, \"%s\\n\", (");
    lemma_calm("fprintf(stderr, \"%s\\n\", ("@);
    reveal_strlit("getgid()");
    lemma_calm("getgid()"@);
}

proof fn lemma_foreign_5()
    ensures
        foreign("getpid()"@),
        foreign("getuid()"@),
        foreign("kill(("@),
        foreign("link(("@),
        foreign("mkdir("@),
        foreign("mkfifo("@),
        foreign("mkfifo(("@),
        foreign("mknod("@),
        foreign("printf(\"%d\\n\", "@),
        foreign("printf(\"%f\\n\", "@),
        foreign("printf(\"%s\", "@),
        foreign("printf(\"%s\\n\", "@),
{
    reveal_with_fuel(calm, 21);
    reveal_strlit("getpid()");
    lemma_calm("getpid()"@);
    reveal_strlit("getuid()");
    lemma_calm("getuid()"@);
    reveal_strlit("kill((");
    lemma_calm("kill(("@);
    reveal_strlit("link((");
    lemma_calm("link(("@);
    reveal_strlit("mkdir(");
    lemma_calm("mkdir("@);
    reveal_strlit("mkfifo(");
    lemma_calm("mkfifo("@);
    reveal_strlit("mkfifo((");
    lemma_calm("mkfifo(("@);
    reveal_strlit("mknod(");
    lemma_calm("mknod("@);
    reveal_strlit("printf(\"%d\\n\", ");
    lemma_calm("printf(\"%d\\n\", "@);
    reveal_strlit("printf(\"%f\\n\", ");
    lemma_calm("printf(\"%f\\n\", "@);
    reveal_strlit("printf(\"%s\", ");
    lemma_calm("printf(\"%s\", "@);
    reveal_strlit("printf(\"%s\\n\", ");
    lemma_calm("printf(\"%s\\n\", "@);
}

proof fn lemma_foreign_6()
    ensures
        foreign("printf(\"%s\\n\", ("@),
        foreign("remove("@),
        foreign("rename("@),
        foreign("rmdir(("@),
        foreign("send("@),
        foreign("shutdown("@),
        foreign("signal(SIGPIPE, SIG_IGN)"@),
        foreign("srand((unsigned)time(NULL))"@),
        foreign("strtod("@),
        foreign("symlink(("@),
        foreign("system("@),
        foreign("truncate(("@),
{
    reveal_with_fuel(calm, 30);
    reveal_strlit("printf(\"%s\\n\", (");
    lemma_calm("printf(\"%s\\n\", ("@);
    reveal_strlit("remove(");
    lemma_calm("remove("@);
    reveal_strlit("rename(");
    lemma_calm("rename("@);
    reveal_strlit("rmdir((");
    lemma_calm("rmdir(("@);
    reveal_strlit("send(");
    lemma_calm("send("@);
    reveal_strlit("shutdown(");
    lemma_calm("shutdown("@);
    reveal_strlit("signal(SIGPIPE, SIG_IGN)");
    lemma_calm("signal(SIGPIPE, SIG_IGN)"@);
    reveal_strlit("srand((unsigned)time(NULL))");
    lemma_calm("srand((unsigned)time(NULL))"@);
    reveal_strlit("strtod(");
    lemma_calm("strtod("@);
    reveal_strlit("symlink((");
    lemma_calm("symlink(("@);
    reveal_strlit("system(");
    lemma_calm("system("@);
    reveal_strlit("truncate((");
    lemma_calm("truncate(("@);
}

/// Nothing else of the runtime is called: but for the function that a builtin
/// becomes a call of, the text around its arguments holds no name of the runtime,
/// other than those of three variables and of the function that splits strings.
pub proof fn law_builtins_call_nothing_else(i: int)
    ensures
        0 <= i < builtins::PLAIN_CALLS@.len() ==> {
            let row = builtins::PLAIN_CALLS@[i];
            (foreign(row.1@) || reads_variable(row.1@)) && foreign(row.3@)
        },
        0 <= i < builtins::PRINT_CALLS@.len() ==> {
            let row = builtins::PRINT_CALLS@[i];
            foreign(row.1@) && foreign(row.2@)
        },
        0 <= i < builtins::CALLS@.len() ==> {
            let row = builtins::CALLS@[i];
            &&& foreign(row.2@)
            &&& foreign(row.4@) || reads_variable(row.4@) || row.4@ == "__xlang_str_split("@
            &&& foreign(row.5@)
            &&& foreign(row.6@)
            &&& foreign(row.7@)
            &&& foreign(row.8@)
        },
        // The three that are not in a table.
        foreign("fflush(stdout)"@),
        foreign("(getenv("@),
        foreign(") ? getenv("@),
        foreign(") : \"\")"@),
        foreign("send("@),
        foreign(", "@),
        foreign(", strlen("@),
        foreign("), 0)"@),
{
    lemma_foreign_0();
    lemma_foreign_1();
    lemma_foreign_2();
    lemma_foreign_3();
    lemma_foreign_4();
    lemma_foreign_5();
    lemma_foreign_6();
    assert(forall|k: int|
        0 <= k < builtins::PLAIN_CALLS@.len() ==> (foreign((#[trigger] builtins::PLAIN_CALLS@[k]).1@)
            || reads_variable(builtins::PLAIN_CALLS@[k].1@)) && foreign(
            builtins::PLAIN_CALLS@[k].3@,
        ));
    assert(forall|k: int|
        0 <= k < builtins::PRINT_CALLS@.len() ==> foreign(
            (#[trigger] builtins::PRINT_CALLS@[k]).1@,
        ) && foreign(builtins::PRINT_CALLS@[k].2@));
    assert(forall|k: int|
        0 <= k < builtins::CALLS@.len() ==> foreign((#[trigger] builtins::CALLS@[k]).2@));
    assert(forall|k: int|
        0 <= k < builtins::CALLS@.len() ==> foreign((#[trigger] builtins::CALLS@[k]).4@)
            || reads_variable(builtins::CALLS@[k].4@) || builtins::CALLS@[k].4@
            == "__xlang_str_split("@);
    assert(forall|k: int|
        0 <= k < builtins::CALLS@.len() ==> foreign((#[trigger] builtins::CALLS@[k]).5@)
            && foreign(builtins::CALLS@[k].6@));
    assert(forall|k: int|
        0 <= k < builtins::CALLS@.len() ==> foreign((#[trigger] builtins::CALLS@[k]).7@)
            && foreign(builtins::CALLS@[k].8@));
}

} // verus!
