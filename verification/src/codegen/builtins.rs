//! The builtin functions: what a call of one becomes in C.

use vstd::prelude::*;

use crate::text;

verus! {

/// Builtins without arguments: the name, and the C for a call. A function of the
/// runtime that is called in it stands by itself, in the middle.
pub const PLAIN_CALLS: [(&'static str, &'static str, &'static str, &'static str); 27] = [
    ("fork", "fork()", "", ""),
    ("getpid", "getpid()", "", ""),
    ("make_pipe", "", "__xlang_make_pipe", "()"),
    ("pipe_read_end", "", "__xlang_pipe_read_end", "()"),
    ("pipe_write_end", "", "__xlang_pipe_write_end", "()"),
    ("wait_child", "", "__xlang_wait_child", "()"),
    ("wait_status", "", "__xlang_wait_status", "()"),
    ("epoll_create", "", "__xlang_epoll_create", "()"),
    ("argc", "(__xlang_argc_g)", "", ""),
    ("read_stdin", "", "__xlang_read_stdin", "()"),
    ("read_line", "", "__xlang_read_line", "()"),
    ("sb_new", "", "__xlang_sb_new", "()"),
    ("sb_str", "", "__xlang_sb_str", "()"),
    ("ignore_sigpipe", "signal(SIGPIPE, SIG_IGN)", "", ""),
    ("time_str", "", "__xlang_time_str", "()"),
    ("now_s", "", "__xlang_now_s", "()"),
    ("time_now", "", "__xlang_time_now", "()"),
    ("random_seed", "srand((unsigned)time(NULL))", "", ""),
    ("getcwd", "", "__xlang_getcwd", "()"),
    ("env_count", "", "__xlang_env_count", "()"),
    ("tty", "", "__xlang_tty", "()"),
    ("uname_machine", "", "__xlang_uname_machine", "()"),
    ("rbuf_str", "", "__xlang_rbuf_str", "()"),
    ("unreachable", "(", "__xlang_unreachable_", "(), 0)"),
    ("getuid", "getuid()", "", ""),
    ("getgid", "getgid()", "", ""),
    ("read_utmp", "", "__xlang_read_utmp", "()"),
];

/// The print builtins: the name, and the C before and after the argument.
pub const PRINT_CALLS: [(&'static str, &'static str, &'static str); 8] = [
    ("print_i32", "printf(\"%d\\n\", ", ")"),
    ("print_f64", "printf(\"%f\\n\", ", ")"),
    ("print_str", "printf(\"%s\\n\", ", ")"),
    ("print_bool", "printf(\"%s\\n\", (", ") ? \"true\" : \"false\")"),
    ("eprint_i32", "fprintf(stderr, \"%d\\n\", ", ")"),
    ("eprint_f64", "fprintf(stderr, \"%f\\n\", ", ")"),
    ("eprint_str", "fprintf(stderr, \"%s\\n\", ", ")"),
    ("eprint_bool", "fprintf(stderr, \"%s\\n\", (", ") ? \"true\" : \"false\")"),
];

/// The other builtins: the name, the number of arguments that the call uses, and
/// the C before, between and after those arguments. What comes before them is in
/// three parts, of which the middle one is the function of the runtime that is
/// called, if one is. (`str_split` calls a function that is defined with the type of
/// its result.)
pub const CALLS: [(
    &'static str,
    usize,
    &'static str,
    &'static str,
    &'static str,
    &'static str,
    &'static str,
    &'static str,
    &'static str,
); 140] = [
    ("str_len", 1, "", "", "(int32_t)strlen(", ")", "", "", ""),
    ("argv", 1, "", "", "__xlang_argv_g[", "]", "", "", ""),
    ("print_raw", 1, "", "", "printf(\"%s\", ", ")", "", "", ""),
    ("assert", 1, "(", "__xlang_assert", "((", "), \"assertion failed\"), 0)", "", "", ""),
    ("panic", 1, "(", "__xlang_panic", "(", "), 0)", "", "", ""),
    ("int_to_str", 1, "", "__xlang_int_to_str", "(", ")", "", "", ""),
    ("float_to_str", 1, "", "__xlang_float_to_str", "(", ")", "", "", ""),
    ("int_to_f64", 1, "", "", "(double)(", ")", "", "", ""),
    ("int_to_i64", 1, "", "", "(int64_t)(", ")", "", "", ""),
    ("sha256_hex", 1, "", "__xlang_sha256_hex", "(", ")", "", "", ""),
    ("md5_hex", 1, "", "__xlang_md5_hex", "(", ")", "", "", ""),
    ("sha1_hex", 1, "", "__xlang_sha1_hex", "(", ")", "", "", ""),
    ("sha512_hex", 1, "", "__xlang_sha512_hex", "(", ")", "", "", ""),
    ("sha224_hex", 1, "", "__xlang_sha224_hex", "(", ")", "", "", ""),
    ("sha384_hex", 1, "", "__xlang_sha384_hex", "(", ")", "", "", ""),
    ("pad_int", 2, "", "__xlang_pad_int", "(", ", ", ")", "", ""),
    ("pad_zero", 2, "", "__xlang_pad_zero", "(", ", ", ")", "", ""),
    ("max", 2, "", "__xlang_max", "(", ", ", ")", "", ""),
    ("min", 2, "", "__xlang_min", "(", ", ", ")", "", ""),
    ("str_concat", 2, "", "__xlang_str_concat", "(", ", ", ")", "", ""),
    ("str_eq", 2, "", "", "(strcmp(", ", ", ") == 0)", "", ""),
    ("str_find", 2, "", "__xlang_str_find", "(", ", ", ")", "", ""),
    ("str_slice", 3, "", "__xlang_str_slice", "(", ", ", ", ", ")", ""),
    ("str_reverse", 1, "", "__xlang_str_reverse", "(", ")", "", "", ""),
    ("str_lower", 1, "", "__xlang_str_lower", "(", ")", "", "", ""),
    ("str_upper", 1, "", "__xlang_str_upper", "(", ")", "", "", ""),
    ("str_repeat", 2, "", "__xlang_str_repeat", "(", ", ", ")", "", ""),
    ("time_format_at", 2, "", "__xlang_time_format_at", "(", ", ", ")", "", ""),
    ("time_format_at_utc", 2, "", "__xlang_time_format_at_utc", "(", ", ", ")", "", ""),
    ("tls_ctx_new", 2, "", "__xlang_tls_ctx_new", "(", ", ", ")", "", ""),
    ("tls_accept", 2, "", "__xlang_tls_accept", "(", ", ", ")", "", ""),
    ("tls_write", 2, "", "__xlang_tls_write", "(", ", ", ")", "", ""),
    ("tls_read", 1, "", "__xlang_tls_read", "(", ")", "", "", ""),
    ("tls_close", 1, "", "__xlang_tls_close", "(", ")", "", "", ""),
    ("chr", 1, "", "__xlang_chr", "(", ")", "", "", ""),
    ("abs", 1, "", "__xlang_abs", "(", ")", "", "", ""),
    ("str_trim", 1, "", "__xlang_str_trim", "(", ")", "", "", ""),
    ("time_format", 1, "", "__xlang_time_format", "(", ")", "", "", ""),
    ("time_format_utc", 1, "", "__xlang_time_format_utc", "(", ")", "", "", ""),
    ("str_split", 2, "", "", "__xlang_str_split(", ", ", "[0])", "", ""),
    ("str_contains", 2, "", "__xlang_str_contains", "(", ", ", ")", "", ""),
    ("str_starts_with", 2, "", "__xlang_str_starts_with", "(", ", ", ")", "", ""),
    ("str_ends_with", 2, "", "__xlang_str_ends_with", "(", ", ", ")", "", ""),
    ("str_replace", 3, "", "__xlang_str_replace", "(", ", ", ", ", ")", ""),
    ("str_replace_first", 3, "", "__xlang_str_replace_first", "(", ", ", ", ", ")", ""),
    ("str_find_from", 3, "", "__xlang_str_find_from", "(", ", ", ", ", ")", ""),
    ("str_translate", 3, "", "__xlang_str_translate", "(", ", ", ", ", ")", ""),
    ("str_delete", 2, "", "__xlang_str_delete", "(", ", ", ")", "", ""),
    ("cat_show", 3, "", "__xlang_cat_show", "(", ", ", ", ", ")", ""),
    ("str_char_at", 2, "", "", "(int32_t)(unsigned char)(", "[", "])", "", ""),
    ("rbuf_byte_at", 1, "", "", "((int32_t)(unsigned char)__xlang_rbuf[", "])", "", "", ""),
    ("dir_count", 1, "", "__xlang_dir_count", "(", ")", "", "", ""),
    ("is_dir", 1, "", "__xlang_is_dir", "(", ")", "", "", ""),
    ("file_size", 1, "", "__xlang_file_size", "(", ")", "", "", ""),
    ("file_exists", 1, "", "__xlang_file_exists", "(", ")", "", "", ""),
    ("fmt_ctime", 1, "", "__xlang_fmt_ctime", "(", ")", "", "", ""),
    ("fmt_http_date", 1, "", "__xlang_fmt_http_date", "(", ")", "", "", ""),
    ("stat_field", 2, "", "__xlang_stat_field", "(", ", ", ")", "", ""),
    ("chdir", 1, "", "", "chdir((", "))", "", "", ""),
    ("make_dir", 1, "", "", "mkdir(", ", 0755)", "", "", ""),
    ("make_fifo", 1, "", "", "mkfifo(", ", 0644)", "", "", ""),
    ("chroot_call", 1, "", "", "chroot(", ")", "", "", ""),
    ("mknod_dev", 4, "", "", "mknod(", ", ", ", (((", ") << 8) | ((", ") & 0xff)))"),
    ("chown_file", 3, "", "", "chown(", ", ", ", ", ")", ""),
    ("chgrp_file", 2, "", "", "chown(", ", -1, ", ")", "", ""),
    ("kill", 2, "", "", "kill((", "), (", "))", "", ""),
    ("random_int", 1, "", "", "(int32_t)(rand() % (", "))", "", "", ""),
    ("sb_push", 1, "", "__xlang_sb_push", "(", ")", "", "", ""),
    ("sb_push_char", 1, "", "__xlang_sb_push_char", "(", ")", "", "", ""),
    ("setenv", 2, "", "__xlang_setenv", "(", ", ", ")", "", ""),
    ("readlink", 1, "", "__xlang_readlink", "(", ")", "", "", ""),
    ("realpath", 1, "", "__xlang_realpath", "(", ")", "", "", ""),
    ("env_entry", 1, "", "__xlang_env_entry", "(", ")", "", "", ""),
    ("link_file", 2, "", "", "link((", "), (", "))", "", ""),
    ("truncate_file", 2, "", "", "truncate((", "), (", "))", "", ""),
    ("mkfifo", 1, "", "", "mkfifo((", "), 0644)", "", "", ""),
    ("wait_pid_status", 1, "", "__xlang_wait_pid_status", "(", ")", "", "", ""),
    ("rmdir", 1, "", "", "rmdir((", "))", "", "", ""),
    ("str_to_int_oct", 1, "", "", "(int32_t)strtol(", ", 0, 8)", "", "", ""),
    ("chmod", 2, "", "", "chmod((", "), (", "))", "", ""),
    ("symlink", 2, "", "", "symlink((", "), (", "))", "", ""),
    ("dir_entry", 2, "", "__xlang_dir_entry", "(", ", ", ")", "", ""),
    ("str_cmp", 2, "", "", "(int32_t)strcmp(", ", ", ")", "", ""),
    ("vec_len", 1, "", "", "((int32_t)(", ").len)", "", "", ""),
    ("str_to_int", 1, "", "", "(int32_t)strtol(", ", 0, 10)", "", "", ""),
    ("str_to_float", 1, "", "", "strtod(", ", 0)", "", "", ""),
    ("remove_file", 1, "", "", "remove(", ")", "", "", ""),
    ("system", 1, "", "", "system(", ")", "", "", ""),
    ("sleep_sec", 1, "", "", "(unsigned)sleep((", "))", "", "", ""),
    ("rename_file", 2, "", "", "rename(", ", ", ")", "", ""),
    ("read_file", 1, "", "__xlang_read_file", "(", ")", "", "", ""),
    ("write_file", 2, "", "__xlang_write_file", "(", ", ", ")", "", ""),
    ("tcp_listen", 1, "", "__xlang_tcp_listen", "(", ")", "", "", ""),
    ("tcp_listen_reuseport", 1, "", "__xlang_tcp_listen_reuseport", "(", ")", "", "", ""),
    ("tcp_connect", 2, "", "__xlang_tcp_connect", "(", ", ", ")", "", ""),
    ("accept", 1, "", "", "accept(", ", 0, 0)", "", "", ""),
    ("recv_str", 1, "", "__xlang_recv_str", "(", ")", "", "", ""),
    ("recv_all", 1, "", "__xlang_recv_all", "(", ")", "", "", ""),
    ("recv_n", 1, "", "__xlang_recv_n", "(", ")", "", "", ""),
    ("read_rbuf", 1, "", "__xlang_read_rbuf", "(", ")", "", "", ""),
    ("close_fd", 1, "", "", "close(", ")", "", "", ""),
    ("shutdown_wr", 1, "", "", "shutdown(", ", SHUT_WR)", "", "", ""),
    ("epoll_add", 1, "", "__xlang_epoll_add", "(", ")", "", "", ""),
    ("epoll_del", 1, "", "__xlang_epoll_del", "(", ")", "", "", ""),
    ("epoll_wait", 1, "", "__xlang_epoll_wait", "(", ")", "", "", ""),
    ("set_nonblock", 1, "", "__xlang_set_nonblock", "(", ")", "", "", ""),
    ("set_nodelay", 1, "", "__xlang_set_nodelay", "(", ")", "", "", ""),
    ("open_read", 1, "", "__xlang_open_read", "(", ")", "", "", ""),
    ("read_fd", 1, "", "__xlang_read_fd", "(", ")", "", "", ""),
    ("open_write", 1, "", "__xlang_open_write", "(", ")", "", "", ""),
    ("open_append", 1, "", "__xlang_open_append", "(", ")", "", "", ""),
    ("seek", 2, "", "__xlang_seek", "(", ", ", ")", "", ""),
    ("make_pipe_at", 1, "", "__xlang_make_pipe_at", "(", ")", "", "", ""),
    ("pipe_r_at", 1, "", "__xlang_pipe_r_at", "(", ")", "", "", ""),
    ("pipe_w_at", 1, "", "__xlang_pipe_w_at", "(", ")", "", "", ""),
    ("exec_sh", 1, "", "__xlang_exec_sh", "(", ")", "", "", ""),
    ("exec_split", 1, "", "__xlang_exec_split", "(", ")", "", "", ""),
    ("dup2", 2, "", "__xlang_dup2", "(", ", ", ")", "", ""),
    ("cache_open", 1, "", "__xlang_cache_open", "(", ")", "", "", ""),
    ("cache_size", 1, "", "__xlang_cache_size", "(", ")", "", "", ""),
    ("sendfile_fd", 3, "", "__xlang_sendfile_fd", "(", ", ", ", ", ")", ""),
    ("sendfile_range", 4, "", "__xlang_sendfile_range", "(", ", ", ", ", ", ", ")"),
    ("send_bytes", 3, "", "", "send(", ", ", ", (size_t)(", "), 0)", ""),
    ("send_rbuf", 2, "", "__xlang_send_rbuf", "(", ", ", ")", "", ""),
    ("write_rbuf", 3, "", "__xlang_write_rbuf", "(", ", ", ", ", ")", ""),
    ("str_keep", 2, "", "__xlang_str_keep", "(", ", ", ")", "", ""),
    ("str_translate_complement", 3, "", "__xlang_str_translate_complement", "(", ", ", ", ", ")", ""),
    ("count_newlines", 1, "", "__xlang_count_newlines", "(", ")", "", "", ""),
    ("sb_push_i32", 1, "", "__xlang_sb_push_i32", "(", ")", "", "", ""),
    ("sb_push_slice", 3, "", "__xlang_sb_push_slice", "(", ", ", ", ", ")", ""),
    ("sendfile_stdout", 1, "", "__xlang_sendfile_stdout", "(", ")", "", "", ""),
    ("statvfs_field", 2, "", "__xlang_statvfs_field", "(", ", ", ")", "", ""),
    ("uid_to_name", 1, "", "__xlang_uid_to_name", "(", ")", "", "", ""),
    ("gid_to_name", 1, "", "__xlang_gid_to_name", "(", ")", "", "", ""),
    ("regex_match", 2, "", "__xlang_regex_match", "(", ", ", ")", "", ""),
    ("regex_find", 2, "", "__xlang_regex_find", "(", ", ", ")", "", ""),
    ("regex_find_from", 3, "", "__xlang_regex_find_from", "(", ", ", ", ", ")", ""),
    ("regex_match_len", 3, "", "__xlang_regex_match_len", "(", ", ", ", ", ")", ""),
    ("exit", 1, "", "", "exit(", ")", "", "", ""),
    ("eprint_raw", 1, "", "", "fprintf(stderr, \"%s\", ", ")", "", "", ""),
];

/// The builtins that turn the TLS part of the runtime on.
pub open spec fn is_tls(name: Seq<char>) -> bool {
    ||| name == "tls_ctx_new"@
    ||| name == "tls_accept"@
    ||| name == "tls_write"@
    ||| name == "tls_read"@
    ||| name == "tls_close"@
}

/// The first row, from the `i`-th on, of the builtins without arguments that has
/// this name.
pub open spec fn plain_row(name: Seq<char>, i: int) -> Option<int>
    decreases PLAIN_CALLS@.len() - i,
{
    if i < 0 || i >= PLAIN_CALLS@.len() {
        None
    } else if PLAIN_CALLS@[i].0@ == name {
        Some(i)
    } else {
        plain_row(name, i + 1)
    }
}

/// The C for a call of a builtin without arguments.
#[verifier::opaque]
pub open spec fn plain_text(name: Seq<char>) -> Option<Seq<char>> {
    match plain_row(name, 0) {
        Some(i) => Some(PLAIN_CALLS@[i].1@ + PLAIN_CALLS@[i].2@ + PLAIN_CALLS@[i].3@),
        None => None,
    }
}

/// The first row, from the `i`-th on, of the print builtins that has this name.
pub open spec fn print_row(name: Seq<char>, i: int) -> Option<int>
    decreases PRINT_CALLS@.len() - i,
{
    if i < 0 || i >= PRINT_CALLS@.len() {
        None
    } else if PRINT_CALLS@[i].0@ == name {
        Some(i)
    } else {
        print_row(name, i + 1)
    }
}

/// The C for a call of a print builtin.
#[verifier::opaque]
pub open spec fn print_text(name: Seq<char>, a: Seq<char>) -> Option<Seq<char>> {
    match print_row(name, 0) {
        Some(i) => Some(PRINT_CALLS@[i].1@ + a + PRINT_CALLS@[i].2@),
        None => None,
    }
}

/// The first row, from the `i`-th on, of the other builtins that has this name.
pub open spec fn call_row(name: Seq<char>, i: int) -> Option<int>
    decreases CALLS@.len() - i,
{
    if i < 0 || i >= CALLS@.len() {
        None
    } else if CALLS@[i].0@ == name {
        Some(i)
    } else {
        call_row(name, i + 1)
    }
}

/// How many arguments a call of a builtin uses.
#[verifier::opaque]
pub open spec fn call_arity(name: Seq<char>) -> Option<nat> {
    if name == "flush_stdout"@ || name == "getenv"@ {
        Some(1)
    } else if name == "send_str"@ {
        Some(2)
    } else {
        match call_row(name, 0) {
            Some(i) => Some(CALLS@[i].1 as nat),
            None => None,
        }
    }
}

/// The C for a call of a builtin, from the C for the arguments that it uses.
/// `flush_stdout` drops its argument; `getenv` and `send_str` repeat one.
#[verifier::opaque]
pub open spec fn call_text(name: Seq<char>, a: Seq<Seq<char>>) -> Seq<char> {
    if name == "flush_stdout"@ {
        "fflush(stdout)"@
    } else if name == "getenv"@ {
        "(getenv("@ + a[0] + ") ? getenv("@ + a[0] + ") : \"\")"@
    } else if name == "send_str"@ {
        "send("@ + a[0] + ", "@ + a[1] + ", strlen("@ + a[1] + "), 0)"@
    } else {
        match call_row(name, 0) {
            Some(i) => {
                let row = CALLS@[i];
                let front = row.2@ + row.3@ + row.4@;
                if row.1 == 1 {
                    front + a[0] + row.5@
                } else if row.1 == 2 {
                    front + a[0] + row.5@ + a[1] + row.6@
                } else if row.1 == 3 {
                    front + a[0] + row.5@ + a[1] + row.6@ + a[2] + row.7@
                } else {
                    front + a[0] + row.5@ + a[1] + row.6@ + a[2] + row.7@ + a[3] + row.8@
                }
            },
            None => Seq::empty(),
        }
    }
}

proof fn lemma_row(name: Seq<char>, i: int)
    ensures
        call_row(name, i) is Some ==> 0 <= call_row(name, i)->0 < CALLS@.len(),
    decreases CALLS@.len() - i,
{
    if 0 <= i < CALLS@.len() && CALLS@[i].0@ != name {
        lemma_row(name, i + 1);
    }
}

/// A builtin uses one to four arguments.
pub proof fn law_arity(name: Seq<char>)
    ensures
        call_arity(name) is Some ==> 1 <= call_arity(name)->0 <= 4,
{
    reveal(call_arity);
    lemma_row(name, 0);
    assert(forall|i: int| 0 <= i < CALLS@.len() ==> 1 <= (#[trigger] CALLS@[i]).1 <= 4);
}

/// Whether a builtin turns the TLS part of the runtime on.
pub fn uses_tls(name: &str) -> (r: bool)
    ensures
        r == is_tls(name@),
{
    text::same(name, "tls_ctx_new") || text::same(name, "tls_accept") || text::same(
        name,
        "tls_write",
    ) || text::same(name, "tls_read") || text::same(name, "tls_close")
}

/// The C for a call of a builtin without arguments.
pub fn plain(name: &str) -> (r: Option<String>)
    ensures
        (match r {
            Some(s) => Some(s@),
            None => None,
        }) == plain_text(name@),
{
    proof {
        reveal(plain_text);
    }
    let mut i: usize = 0;
    while i < PLAIN_CALLS.len()
        invariant
            i <= PLAIN_CALLS@.len(),
            plain_row(name@, 0) == plain_row(name@, i as int),
            plain_text(name@) == (match plain_row(name@, 0) {
                Some(i) => Some(PLAIN_CALLS@[i].1@ + PLAIN_CALLS@[i].2@ + PLAIN_CALLS@[i].3@),
                None => None,
            }),
        decreases PLAIN_CALLS@.len() - i,
    {
        if text::same(PLAIN_CALLS[i].0, name) {
            return Some(
                text::cat3(PLAIN_CALLS[i].1, PLAIN_CALLS[i].2, PLAIN_CALLS[i].3),
            );
        }
        i += 1;
    }
    None
}

/// The C for a call of a print builtin.
pub fn print(name: &str, a: &str) -> (r: Option<String>)
    ensures
        (match r {
            Some(s) => Some(s@),
            None => None,
        }) == print_text(name@, a@),
{
    proof {
        reveal(print_text);
    }
    let mut i: usize = 0;
    while i < PRINT_CALLS.len()
        invariant
            i <= PRINT_CALLS@.len(),
            print_row(name@, 0) == print_row(name@, i as int),
            print_text(name@, a@) == (match print_row(name@, 0) {
                Some(i) => Some(PRINT_CALLS@[i].1@ + a@ + PRINT_CALLS@[i].2@),
                None => None,
            }),
        decreases PRINT_CALLS@.len() - i,
    {
        if text::same(PRINT_CALLS[i].0, name) {
            return Some(text::cat3(PRINT_CALLS[i].1, a, PRINT_CALLS[i].2));
        }
        i += 1;
    }
    None
}

/// The row of one of the other builtins.
fn find_call(name: &str) -> (r: Option<usize>)
    ensures
        (match r {
            Some(i) => Some(i as int),
            None => None,
        }) == call_row(name@, 0),
        r is Some ==> r->0 < CALLS@.len(),
{
    let mut i: usize = 0;
    while i < CALLS.len()
        invariant
            i <= CALLS@.len(),
            call_row(name@, 0) == call_row(name@, i as int),
        decreases CALLS@.len() - i,
    {
        if text::same(CALLS[i].0, name) {
            return Some(i);
        }
        i += 1;
    }
    None
}

/// How many arguments a call of a builtin uses.
pub fn arity(name: &str) -> (r: Option<usize>)
    ensures
        (match r {
            Some(n) => Some(n as nat),
            None => None,
        }) == call_arity(name@),
{
    proof {
        reveal(call_arity);
    }
    if text::same(name, "flush_stdout") || text::same(name, "getenv") {
        Some(1)
    } else if text::same(name, "send_str") {
        Some(2)
    } else {
        match find_call(name) {
            Some(i) => Some(CALLS[i].1),
            None => None,
        }
    }
}

/// The C for a call of a builtin.
pub fn call(name: &str, a: &Vec<String>) -> (r: String)
    requires
        call_arity(name@) is Some,
        call_arity(name@)->0 <= a@.len(),
    ensures
        r@ == call_text(name@, text::texts(a@)),
{
    proof {
        law_arity(name@);
        reveal(call_arity);
        reveal(call_text);
    }
    let ghost t = text::texts(a@);
    assert(forall|k: int| 0 <= k < a@.len() ==> t[k] == (#[trigger] a@[k])@);
    let a0 = a[0].as_str();
    if text::same(name, "flush_stdout") {
        "fflush(stdout)".to_string()
    } else if text::same(name, "getenv") {
        text::cat5("(getenv(", a0, ") ? getenv(", a0, ") : \"\")")
    } else if text::same(name, "send_str") {
        let a1 = a[1].as_str();
        text::cat7("send(", a0, ", ", a1, ", strlen(", a1, "), 0)")
    } else {
        match find_call(name) {
            Some(i) => {
                let row = CALLS[i];
                let front = text::cat3(row.2, row.3, row.4);
                let f = front.as_str();
                if row.1 == 1 {
                    text::cat3(f, a0, row.5)
                } else if row.1 == 2 {
                    text::cat5(f, a0, row.5, a[1].as_str(), row.6)
                } else if row.1 == 3 {
                    text::cat7(f, a0, row.5, a[1].as_str(), row.6, a[2].as_str(), row.7)
                } else {
                    let most = text::cat7(
                        f,
                        a0,
                        row.5,
                        a[1].as_str(),
                        row.6,
                        a[2].as_str(),
                        row.7,
                    );
                    text::cat3(most.as_str(), a[3].as_str(), row.8)
                }
            },
            None => String::new(),
        }
    }
}

} // verus!
