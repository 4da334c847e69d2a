//! The builtins: what a call of each becomes.

use vstd::prelude::*;

use crate::codegen::builtins;
use crate::text;

verus! {

// ---------------------------------------------------------------------------
// Rows
// ---------------------------------------------------------------------------

/// Whether builtin `i` has this name and takes `n` arguments, which it hands on in
/// order to the function of the runtime that is called like it.
pub open spec fn hands_on(i: int, name: Seq<char>, n: usize) -> bool {
    let row = builtins::CALLS@[i];
    &&& row.0@ == name
    &&& row.1 == n
    &&& row.2@ == ""@
    &&& row.3@ == "__xlang_"@ + name
    &&& row.4@ == "("@
    &&& row.5@ == if n > 1 {
        ", "@
    } else {
        ")"@
    }
    &&& n == 2 ==> row.6@ == ")"@
    &&& n == 3 ==> row.6@ == ", "@ && row.7@ == ")"@
    &&& n == 4 ==> row.6@ == ", "@ && row.7@ == ", "@ && row.8@ == ")"@
}

/// Whether builtin `i` has this name and takes one argument, with these texts around it.
pub open spec fn one(i: int, name: Seq<char>, before: Seq<char>, after: Seq<char>) -> bool {
    let row = builtins::CALLS@[i];
    row.0@ == name && row.1 == 1 && row.2@ + row.3@ + row.4@ == before && row.5@ == after
}

/// Whether builtin `i` has this name and takes two arguments, with these texts around
/// them.
pub open spec fn two(
    i: int,
    name: Seq<char>,
    before: Seq<char>,
    between: Seq<char>,
    after: Seq<char>,
) -> bool {
    let row = builtins::CALLS@[i];
    row.0@ == name && row.1 == 2 && row.2@ + row.3@ + row.4@ == before && row.5@ == between && row.6@
        == after
}

/// Whether builtin `i` has this name and takes three arguments, with these texts around
/// them.
pub open spec fn three(
    i: int,
    name: Seq<char>,
    before: Seq<char>,
    first: Seq<char>,
    second: Seq<char>,
    after: Seq<char>,
) -> bool {
    let row = builtins::CALLS@[i];
    row.0@ == name && row.1 == 3 && row.2@ + row.3@ + row.4@ == before && row.5@ == first && row.6@
        == second && row.7@ == after
}

proof fn lemma_handed_on_0()
    ensures
        hands_on(5, "int_to_str"@, 1),
        hands_on(6, "float_to_str"@, 1),
        hands_on(9, "sha256_hex"@, 1),
        hands_on(10, "md5_hex"@, 1),
        hands_on(11, "sha1_hex"@, 1),
        hands_on(12, "sha512_hex"@, 1),
        hands_on(13, "sha224_hex"@, 1),
        hands_on(14, "sha384_hex"@, 1),
        hands_on(15, "pad_int"@, 2),
        hands_on(16, "pad_zero"@, 2),
        hands_on(17, "max"@, 2),
        hands_on(18, "min"@, 2),
        hands_on(19, "str_concat"@, 2),
        hands_on(21, "str_find"@, 2),
{
    reveal_strlit("__xlang_");
    reveal_strlit("");
    reveal_strlit("int_to_str");
    reveal_strlit("__xlang_int_to_str");
    assert("__xlang_"@ + "int_to_str"@ =~= "__xlang_int_to_str"@);
    reveal_strlit("float_to_str");
    reveal_strlit("__xlang_float_to_str");
    assert("__xlang_"@ + "float_to_str"@ =~= "__xlang_float_to_str"@);
    reveal_strlit("sha256_hex");
    reveal_strlit("__xlang_sha256_hex");
    assert("__xlang_"@ + "sha256_hex"@ =~= "__xlang_sha256_hex"@);
    reveal_strlit("md5_hex");
    reveal_strlit("__xlang_md5_hex");
    assert("__xlang_"@ + "md5_hex"@ =~= "__xlang_md5_hex"@);
    reveal_strlit("sha1_hex");
    reveal_strlit("__xlang_sha1_hex");
    assert("__xlang_"@ + "sha1_hex"@ =~= "__xlang_sha1_hex"@);
    reveal_strlit("sha512_hex");
    reveal_strlit("__xlang_sha512_hex");
    assert("__xlang_"@ + "sha512_hex"@ =~= "__xlang_sha512_hex"@);
    reveal_strlit("sha224_hex");
    reveal_strlit("__xlang_sha224_hex");
    assert("__xlang_"@ + "sha224_hex"@ =~= "__xlang_sha224_hex"@);
    reveal_strlit("sha384_hex");
    reveal_strlit("__xlang_sha384_hex");
    assert("__xlang_"@ + "sha384_hex"@ =~= "__xlang_sha384_hex"@);
    reveal_strlit("pad_int");
    reveal_strlit("__xlang_pad_int");
    assert("__xlang_"@ + "pad_int"@ =~= "__xlang_pad_int"@);
    reveal_strlit("pad_zero");
    reveal_strlit("__xlang_pad_zero");
    assert("__xlang_"@ + "pad_zero"@ =~= "__xlang_pad_zero"@);
    reveal_strlit("max");
    reveal_strlit("__xlang_max");
    assert("__xlang_"@ + "max"@ =~= "__xlang_max"@);
    reveal_strlit("min");
    reveal_strlit("__xlang_min");
    assert("__xlang_"@ + "min"@ =~= "__xlang_min"@);
    reveal_strlit("str_concat");
    reveal_strlit("__xlang_str_concat");
    assert("__xlang_"@ + "str_concat"@ =~= "__xlang_str_concat"@);
    reveal_strlit("str_find");
    reveal_strlit("__xlang_str_find");
    assert("__xlang_"@ + "str_find"@ =~= "__xlang_str_find"@);
}

proof fn lemma_handed_on_1()
    ensures
        hands_on(22, "str_slice"@, 3),
        hands_on(23, "str_reverse"@, 1),
        hands_on(24, "str_lower"@, 1),
        hands_on(25, "str_upper"@, 1),
        hands_on(26, "str_repeat"@, 2),
        hands_on(27, "time_format_at"@, 2),
        hands_on(28, "time_format_at_utc"@, 2),
        hands_on(29, "tls_ctx_new"@, 2),
        hands_on(30, "tls_accept"@, 2),
        hands_on(31, "tls_write"@, 2),
        hands_on(32, "tls_read"@, 1),
        hands_on(33, "tls_close"@, 1),
        hands_on(34, "chr"@, 1),
        hands_on(35, "abs"@, 1),
{
    reveal_strlit("__xlang_");
    reveal_strlit("");
    reveal_strlit("str_slice");
    reveal_strlit("__xlang_str_slice");
    assert("__xlang_"@ + "str_slice"@ =~= "__xlang_str_slice"@);
    reveal_strlit("str_reverse");
    reveal_strlit("__xlang_str_reverse");
    assert("__xlang_"@ + "str_reverse"@ =~= "__xlang_str_reverse"@);
    reveal_strlit("str_lower");
    reveal_strlit("__xlang_str_lower");
    assert("__xlang_"@ + "str_lower"@ =~= "__xlang_str_lower"@);
    reveal_strlit("str_upper");
    reveal_strlit("__xlang_str_upper");
    assert("__xlang_"@ + "str_upper"@ =~= "__xlang_str_upper"@);
    reveal_strlit("str_repeat");
    reveal_strlit("__xlang_str_repeat");
    assert("__xlang_"@ + "str_repeat"@ =~= "__xlang_str_repeat"@);
    reveal_strlit("time_format_at");
    reveal_strlit("__xlang_time_format_at");
    assert("__xlang_"@ + "time_format_at"@ =~= "__xlang_time_format_at"@);
    reveal_strlit("time_format_at_utc");
    reveal_strlit("__xlang_time_format_at_utc");
    assert("__xlang_"@ + "time_format_at_utc"@ =~= "__xlang_time_format_at_utc"@);
    reveal_strlit("tls_ctx_new");
    reveal_strlit("__xlang_tls_ctx_new");
    assert("__xlang_"@ + "tls_ctx_new"@ =~= "__xlang_tls_ctx_new"@);
    reveal_strlit("tls_accept");
    reveal_strlit("__xlang_tls_accept");
    assert("__xlang_"@ + "tls_accept"@ =~= "__xlang_tls_accept"@);
    reveal_strlit("tls_write");
    reveal_strlit("__xlang_tls_write");
    assert("__xlang_"@ + "tls_write"@ =~= "__xlang_tls_write"@);
    reveal_strlit("tls_read");
    reveal_strlit("__xlang_tls_read");
    assert("__xlang_"@ + "tls_read"@ =~= "__xlang_tls_read"@);
    reveal_strlit("tls_close");
    reveal_strlit("__xlang_tls_close");
    assert("__xlang_"@ + "tls_close"@ =~= "__xlang_tls_close"@);
    reveal_strlit("chr");
    reveal_strlit("__xlang_chr");
    assert("__xlang_"@ + "chr"@ =~= "__xlang_chr"@);
    reveal_strlit("abs");
    reveal_strlit("__xlang_abs");
    assert("__xlang_"@ + "abs"@ =~= "__xlang_abs"@);
}

proof fn lemma_handed_on_2()
    ensures
        hands_on(36, "str_trim"@, 1),
        hands_on(37, "time_format"@, 1),
        hands_on(38, "time_format_utc"@, 1),
        hands_on(40, "str_contains"@, 2),
        hands_on(41, "str_starts_with"@, 2),
        hands_on(42, "str_ends_with"@, 2),
        hands_on(43, "str_replace"@, 3),
        hands_on(44, "str_replace_first"@, 3),
        hands_on(45, "str_find_from"@, 3),
        hands_on(46, "str_translate"@, 3),
        hands_on(47, "str_delete"@, 2),
        hands_on(48, "cat_show"@, 3),
        hands_on(51, "dir_count"@, 1),
        hands_on(52, "is_dir"@, 1),
{
    reveal_strlit("__xlang_");
    reveal_strlit("");
    reveal_strlit("str_trim");
    reveal_strlit("__xlang_str_trim");
    assert("__xlang_"@ + "str_trim"@ =~= "__xlang_str_trim"@);
    reveal_strlit("time_format");
    reveal_strlit("__xlang_time_format");
    assert("__xlang_"@ + "time_format"@ =~= "__xlang_time_format"@);
    reveal_strlit("time_format_utc");
    reveal_strlit("__xlang_time_format_utc");
    assert("__xlang_"@ + "time_format_utc"@ =~= "__xlang_time_format_utc"@);
    reveal_strlit("str_contains");
    reveal_strlit("__xlang_str_contains");
    assert("__xlang_"@ + "str_contains"@ =~= "__xlang_str_contains"@);
    reveal_strlit("str_starts_with");
    reveal_strlit("__xlang_str_starts_with");
    assert("__xlang_"@ + "str_starts_with"@ =~= "__xlang_str_starts_with"@);
    reveal_strlit("str_ends_with");
    reveal_strlit("__xlang_str_ends_with");
    assert("__xlang_"@ + "str_ends_with"@ =~= "__xlang_str_ends_with"@);
    reveal_strlit("str_replace");
    reveal_strlit("__xlang_str_replace");
    assert("__xlang_"@ + "str_replace"@ =~= "__xlang_str_replace"@);
    reveal_strlit("str_replace_first");
    reveal_strlit("__xlang_str_replace_first");
    assert("__xlang_"@ + "str_replace_first"@ =~= "__xlang_str_replace_first"@);
    reveal_strlit("str_find_from");
    reveal_strlit("__xlang_str_find_from");
    assert("__xlang_"@ + "str_find_from"@ =~= "__xlang_str_find_from"@);
    reveal_strlit("str_translate");
    reveal_strlit("__xlang_str_translate");
    assert("__xlang_"@ + "str_translate"@ =~= "__xlang_str_translate"@);
    reveal_strlit("str_delete");
    reveal_strlit("__xlang_str_delete");
    assert("__xlang_"@ + "str_delete"@ =~= "__xlang_str_delete"@);
    reveal_strlit("cat_show");
    reveal_strlit("__xlang_cat_show");
    assert("__xlang_"@ + "cat_show"@ =~= "__xlang_cat_show"@);
    reveal_strlit("dir_count");
    reveal_strlit("__xlang_dir_count");
    assert("__xlang_"@ + "dir_count"@ =~= "__xlang_dir_count"@);
    reveal_strlit("is_dir");
    reveal_strlit("__xlang_is_dir");
    assert("__xlang_"@ + "is_dir"@ =~= "__xlang_is_dir"@);
}

proof fn lemma_handed_on_3()
    ensures
        hands_on(53, "file_size"@, 1),
        hands_on(54, "file_exists"@, 1),
        hands_on(55, "fmt_ctime"@, 1),
        hands_on(56, "fmt_http_date"@, 1),
        hands_on(57, "stat_field"@, 2),
        hands_on(67, "sb_push"@, 1),
        hands_on(68, "sb_push_char"@, 1),
        hands_on(69, "setenv"@, 2),
        hands_on(70, "readlink"@, 1),
        hands_on(71, "realpath"@, 1),
        hands_on(72, "env_entry"@, 1),
        hands_on(76, "wait_pid_status"@, 1),
        hands_on(81, "dir_entry"@, 2),
        hands_on(90, "read_file"@, 1),
{
    reveal_strlit("__xlang_");
    reveal_strlit("");
    reveal_strlit("file_size");
    reveal_strlit("__xlang_file_size");
    assert("__xlang_"@ + "file_size"@ =~= "__xlang_file_size"@);
    reveal_strlit("file_exists");
    reveal_strlit("__xlang_file_exists");
    assert("__xlang_"@ + "file_exists"@ =~= "__xlang_file_exists"@);
    reveal_strlit("fmt_ctime");
    reveal_strlit("__xlang_fmt_ctime");
    assert("__xlang_"@ + "fmt_ctime"@ =~= "__xlang_fmt_ctime"@);
    reveal_strlit("fmt_http_date");
    reveal_strlit("__xlang_fmt_http_date");
    assert("__xlang_"@ + "fmt_http_date"@ =~= "__xlang_fmt_http_date"@);
    reveal_strlit("stat_field");
    reveal_strlit("__xlang_stat_field");
    assert("__xlang_"@ + "stat_field"@ =~= "__xlang_stat_field"@);
    reveal_strlit("sb_push");
    reveal_strlit("__xlang_sb_push");
    assert("__xlang_"@ + "sb_push"@ =~= "__xlang_sb_push"@);
    reveal_strlit("sb_push_char");
    reveal_strlit("__xlang_sb_push_char");
    assert("__xlang_"@ + "sb_push_char"@ =~= "__xlang_sb_push_char"@);
    reveal_strlit("setenv");
    reveal_strlit("__xlang_setenv");
    assert("__xlang_"@ + "setenv"@ =~= "__xlang_setenv"@);
    reveal_strlit("readlink");
    reveal_strlit("__xlang_readlink");
    assert("__xlang_"@ + "readlink"@ =~= "__xlang_readlink"@);
    reveal_strlit("realpath");
    reveal_strlit("__xlang_realpath");
    assert("__xlang_"@ + "realpath"@ =~= "__xlang_realpath"@);
    reveal_strlit("env_entry");
    reveal_strlit("__xlang_env_entry");
    assert("__xlang_"@ + "env_entry"@ =~= "__xlang_env_entry"@);
    reveal_strlit("wait_pid_status");
    reveal_strlit("__xlang_wait_pid_status");
    assert("__xlang_"@ + "wait_pid_status"@ =~= "__xlang_wait_pid_status"@);
    reveal_strlit("dir_entry");
    reveal_strlit("__xlang_dir_entry");
    assert("__xlang_"@ + "dir_entry"@ =~= "__xlang_dir_entry"@);
    reveal_strlit("read_file");
    reveal_strlit("__xlang_read_file");
    assert("__xlang_"@ + "read_file"@ =~= "__xlang_read_file"@);
}

proof fn lemma_handed_on_4()
    ensures
        hands_on(91, "write_file"@, 2),
        hands_on(92, "tcp_listen"@, 1),
        hands_on(93, "tcp_listen_reuseport"@, 1),
        hands_on(94, "tcp_connect"@, 2),
        hands_on(96, "recv_str"@, 1),
        hands_on(97, "recv_all"@, 1),
        hands_on(98, "recv_n"@, 1),
        hands_on(99, "read_rbuf"@, 1),
        hands_on(102, "epoll_add"@, 1),
        hands_on(103, "epoll_del"@, 1),
        hands_on(104, "epoll_wait"@, 1),
        hands_on(105, "set_nonblock"@, 1),
        hands_on(106, "set_nodelay"@, 1),
        hands_on(107, "open_read"@, 1),
{
    reveal_strlit("__xlang_");
    reveal_strlit("");
    reveal_strlit("write_file");
    reveal_strlit("__xlang_write_file");
    assert("__xlang_"@ + "write_file"@ =~= "__xlang_write_file"@);
    reveal_strlit("tcp_listen");
    reveal_strlit("__xlang_tcp_listen");
    assert("__xlang_"@ + "tcp_listen"@ =~= "__xlang_tcp_listen"@);
    reveal_strlit("tcp_listen_reuseport");
    reveal_strlit("__xlang_tcp_listen_reuseport");
    assert("__xlang_"@ + "tcp_listen_reuseport"@ =~= "__xlang_tcp_listen_reuseport"@);
    reveal_strlit("tcp_connect");
    reveal_strlit("__xlang_tcp_connect");
    assert("__xlang_"@ + "tcp_connect"@ =~= "__xlang_tcp_connect"@);
    reveal_strlit("recv_str");
    reveal_strlit("__xlang_recv_str");
    assert("__xlang_"@ + "recv_str"@ =~= "__xlang_recv_str"@);
    reveal_strlit("recv_all");
    reveal_strlit("__xlang_recv_all");
    assert("__xlang_"@ + "recv_all"@ =~= "__xlang_recv_all"@);
    reveal_strlit("recv_n");
    reveal_strlit("__xlang_recv_n");
    assert("__xlang_"@ + "recv_n"@ =~= "__xlang_recv_n"@);
    reveal_strlit("read_rbuf");
    reveal_strlit("__xlang_read_rbuf");
    assert("__xlang_"@ + "read_rbuf"@ =~= "__xlang_read_rbuf"@);
    reveal_strlit("epoll_add");
    reveal_strlit("__xlang_epoll_add");
    assert("__xlang_"@ + "epoll_add"@ =~= "__xlang_epoll_add"@);
    reveal_strlit("epoll_del");
    reveal_strlit("__xlang_epoll_del");
    assert("__xlang_"@ + "epoll_del"@ =~= "__xlang_epoll_del"@);
    reveal_strlit("epoll_wait");
    reveal_strlit("__xlang_epoll_wait");
    assert("__xlang_"@ + "epoll_wait"@ =~= "__xlang_epoll_wait"@);
    reveal_strlit("set_nonblock");
    reveal_strlit("__xlang_set_nonblock");
    assert("__xlang_"@ + "set_nonblock"@ =~= "__xlang_set_nonblock"@);
    reveal_strlit("set_nodelay");
    reveal_strlit("__xlang_set_nodelay");
    assert("__xlang_"@ + "set_nodelay"@ =~= "__xlang_set_nodelay"@);
    reveal_strlit("open_read");
    reveal_strlit("__xlang_open_read");
    assert("__xlang_"@ + "open_read"@ =~= "__xlang_open_read"@);
}

proof fn lemma_handed_on_5()
    ensures
        hands_on(108, "read_fd"@, 1),
        hands_on(109, "open_write"@, 1),
        hands_on(110, "open_append"@, 1),
        hands_on(111, "seek"@, 2),
        hands_on(112, "make_pipe_at"@, 1),
        hands_on(113, "pipe_r_at"@, 1),
        hands_on(114, "pipe_w_at"@, 1),
        hands_on(115, "exec_sh"@, 1),
        hands_on(116, "exec_split"@, 1),
        hands_on(117, "dup2"@, 2),
        hands_on(118, "cache_open"@, 1),
        hands_on(119, "cache_size"@, 1),
        hands_on(120, "sendfile_fd"@, 3),
        hands_on(121, "sendfile_range"@, 4),
{
    reveal_strlit("__xlang_");
    reveal_strlit("");
    reveal_strlit("read_fd");
    reveal_strlit("__xlang_read_fd");
    assert("__xlang_"@ + "read_fd"@ =~= "__xlang_read_fd"@);
    reveal_strlit("open_write");
    reveal_strlit("__xlang_open_write");
    assert("__xlang_"@ + "open_write"@ =~= "__xlang_open_write"@);
    reveal_strlit("open_append");
    reveal_strlit("__xlang_open_append");
    assert("__xlang_"@ + "open_append"@ =~= "__xlang_open_append"@);
    reveal_strlit("seek");
    reveal_strlit("__xlang_seek");
    assert("__xlang_"@ + "seek"@ =~= "__xlang_seek"@);
    reveal_strlit("make_pipe_at");
    reveal_strlit("__xlang_make_pipe_at");
    assert("__xlang_"@ + "make_pipe_at"@ =~= "__xlang_make_pipe_at"@);
    reveal_strlit("pipe_r_at");
    reveal_strlit("__xlang_pipe_r_at");
    assert("__xlang_"@ + "pipe_r_at"@ =~= "__xlang_pipe_r_at"@);
    reveal_strlit("pipe_w_at");
    reveal_strlit("__xlang_pipe_w_at");
    assert("__xlang_"@ + "pipe_w_at"@ =~= "__xlang_pipe_w_at"@);
    reveal_strlit("exec_sh");
    reveal_strlit("__xlang_exec_sh");
    assert("__xlang_"@ + "exec_sh"@ =~= "__xlang_exec_sh"@);
    reveal_strlit("exec_split");
    reveal_strlit("__xlang_exec_split");
    assert("__xlang_"@ + "exec_split"@ =~= "__xlang_exec_split"@);
    reveal_strlit("dup2");
    reveal_strlit("__xlang_dup2");
    assert("__xlang_"@ + "dup2"@ =~= "__xlang_dup2"@);
    reveal_strlit("cache_open");
    reveal_strlit("__xlang_cache_open");
    assert("__xlang_"@ + "cache_open"@ =~= "__xlang_cache_open"@);
    reveal_strlit("cache_size");
    reveal_strlit("__xlang_cache_size");
    assert("__xlang_"@ + "cache_size"@ =~= "__xlang_cache_size"@);
    reveal_strlit("sendfile_fd");
    reveal_strlit("__xlang_sendfile_fd");
    assert("__xlang_"@ + "sendfile_fd"@ =~= "__xlang_sendfile_fd"@);
    reveal_strlit("sendfile_range");
    reveal_strlit("__xlang_sendfile_range");
    assert("__xlang_"@ + "sendfile_range"@ =~= "__xlang_sendfile_range"@);
}

proof fn lemma_handed_on_6()
    ensures
        hands_on(123, "send_rbuf"@, 2),
        hands_on(124, "write_rbuf"@, 3),
        hands_on(125, "str_keep"@, 2),
        hands_on(126, "str_translate_complement"@, 3),
        hands_on(127, "count_newlines"@, 1),
        hands_on(128, "sb_push_i32"@, 1),
        hands_on(129, "sb_push_slice"@, 3),
        hands_on(130, "sendfile_stdout"@, 1),
        hands_on(131, "statvfs_field"@, 2),
        hands_on(132, "uid_to_name"@, 1),
        hands_on(133, "gid_to_name"@, 1),
        hands_on(134, "regex_match"@, 2),
        hands_on(135, "regex_find"@, 2),
        hands_on(136, "regex_find_from"@, 3),
{
    reveal_strlit("__xlang_");
    reveal_strlit("");
    reveal_strlit("send_rbuf");
    reveal_strlit("__xlang_send_rbuf");
    assert("__xlang_"@ + "send_rbuf"@ =~= "__xlang_send_rbuf"@);
    reveal_strlit("write_rbuf");
    reveal_strlit("__xlang_write_rbuf");
    assert("__xlang_"@ + "write_rbuf"@ =~= "__xlang_write_rbuf"@);
    reveal_strlit("str_keep");
    reveal_strlit("__xlang_str_keep");
    assert("__xlang_"@ + "str_keep"@ =~= "__xlang_str_keep"@);
    reveal_strlit("str_translate_complement");
    reveal_strlit("__xlang_str_translate_complement");
    assert("__xlang_"@ + "str_translate_complement"@ =~= "__xlang_str_translate_complement"@);
    reveal_strlit("count_newlines");
    reveal_strlit("__xlang_count_newlines");
    assert("__xlang_"@ + "count_newlines"@ =~= "__xlang_count_newlines"@);
    reveal_strlit("sb_push_i32");
    reveal_strlit("__xlang_sb_push_i32");
    assert("__xlang_"@ + "sb_push_i32"@ =~= "__xlang_sb_push_i32"@);
    reveal_strlit("sb_push_slice");
    reveal_strlit("__xlang_sb_push_slice");
    assert("__xlang_"@ + "sb_push_slice"@ =~= "__xlang_sb_push_slice"@);
    reveal_strlit("sendfile_stdout");
    reveal_strlit("__xlang_sendfile_stdout");
    assert("__xlang_"@ + "sendfile_stdout"@ =~= "__xlang_sendfile_stdout"@);
    reveal_strlit("statvfs_field");
    reveal_strlit("__xlang_statvfs_field");
    assert("__xlang_"@ + "statvfs_field"@ =~= "__xlang_statvfs_field"@);
    reveal_strlit("uid_to_name");
    reveal_strlit("__xlang_uid_to_name");
    assert("__xlang_"@ + "uid_to_name"@ =~= "__xlang_uid_to_name"@);
    reveal_strlit("gid_to_name");
    reveal_strlit("__xlang_gid_to_name");
    assert("__xlang_"@ + "gid_to_name"@ =~= "__xlang_gid_to_name"@);
    reveal_strlit("regex_match");
    reveal_strlit("__xlang_regex_match");
    assert("__xlang_"@ + "regex_match"@ =~= "__xlang_regex_match"@);
    reveal_strlit("regex_find");
    reveal_strlit("__xlang_regex_find");
    assert("__xlang_"@ + "regex_find"@ =~= "__xlang_regex_find"@);
    reveal_strlit("regex_find_from");
    reveal_strlit("__xlang_regex_find_from");
    assert("__xlang_"@ + "regex_find_from"@ =~= "__xlang_regex_find_from"@);
}

proof fn lemma_handed_on_7()
    ensures
        hands_on(137, "regex_match_len"@, 3),
{
    reveal_strlit("__xlang_");
    reveal_strlit("");
    reveal_strlit("regex_match_len");
    reveal_strlit("__xlang_regex_match_len");
    assert("__xlang_"@ + "regex_match_len"@ =~= "__xlang_regex_match_len"@);
}

/// The builtins that the runtime has a function for hand their arguments on to it: each
/// to the function of its own name, each argument at its place.
pub proof fn law_handed_on()
    ensures
        hands_on(5, "int_to_str"@, 1),
        hands_on(6, "float_to_str"@, 1),
        hands_on(9, "sha256_hex"@, 1),
        hands_on(10, "md5_hex"@, 1),
        hands_on(11, "sha1_hex"@, 1),
        hands_on(12, "sha512_hex"@, 1),
        hands_on(13, "sha224_hex"@, 1),
        hands_on(14, "sha384_hex"@, 1),
        hands_on(15, "pad_int"@, 2),
        hands_on(16, "pad_zero"@, 2),
        hands_on(17, "max"@, 2),
        hands_on(18, "min"@, 2),
        hands_on(19, "str_concat"@, 2),
        hands_on(21, "str_find"@, 2),
        hands_on(22, "str_slice"@, 3),
        hands_on(23, "str_reverse"@, 1),
        hands_on(24, "str_lower"@, 1),
        hands_on(25, "str_upper"@, 1),
        hands_on(26, "str_repeat"@, 2),
        hands_on(27, "time_format_at"@, 2),
        hands_on(28, "time_format_at_utc"@, 2),
        hands_on(29, "tls_ctx_new"@, 2),
        hands_on(30, "tls_accept"@, 2),
        hands_on(31, "tls_write"@, 2),
        hands_on(32, "tls_read"@, 1),
        hands_on(33, "tls_close"@, 1),
        hands_on(34, "chr"@, 1),
        hands_on(35, "abs"@, 1),
        hands_on(36, "str_trim"@, 1),
        hands_on(37, "time_format"@, 1),
        hands_on(38, "time_format_utc"@, 1),
        hands_on(40, "str_contains"@, 2),
        hands_on(41, "str_starts_with"@, 2),
        hands_on(42, "str_ends_with"@, 2),
        hands_on(43, "str_replace"@, 3),
        hands_on(44, "str_replace_first"@, 3),
        hands_on(45, "str_find_from"@, 3),
        hands_on(46, "str_translate"@, 3),
        hands_on(47, "str_delete"@, 2),
        hands_on(48, "cat_show"@, 3),
        hands_on(51, "dir_count"@, 1),
        hands_on(52, "is_dir"@, 1),
        hands_on(53, "file_size"@, 1),
        hands_on(54, "file_exists"@, 1),
        hands_on(55, "fmt_ctime"@, 1),
        hands_on(56, "fmt_http_date"@, 1),
        hands_on(57, "stat_field"@, 2),
        hands_on(67, "sb_push"@, 1),
        hands_on(68, "sb_push_char"@, 1),
        hands_on(69, "setenv"@, 2),
        hands_on(70, "readlink"@, 1),
        hands_on(71, "realpath"@, 1),
        hands_on(72, "env_entry"@, 1),
        hands_on(76, "wait_pid_status"@, 1),
        hands_on(81, "dir_entry"@, 2),
        hands_on(90, "read_file"@, 1),
        hands_on(91, "write_file"@, 2),
        hands_on(92, "tcp_listen"@, 1),
        hands_on(93, "tcp_listen_reuseport"@, 1),
        hands_on(94, "tcp_connect"@, 2),
        hands_on(96, "recv_str"@, 1),
        hands_on(97, "recv_all"@, 1),
        hands_on(98, "recv_n"@, 1),
        hands_on(99, "read_rbuf"@, 1),
        hands_on(102, "epoll_add"@, 1),
        hands_on(103, "epoll_del"@, 1),
        hands_on(104, "epoll_wait"@, 1),
        hands_on(105, "set_nonblock"@, 1),
        hands_on(106, "set_nodelay"@, 1),
        hands_on(107, "open_read"@, 1),
        hands_on(108, "read_fd"@, 1),
        hands_on(109, "open_write"@, 1),
        hands_on(110, "open_append"@, 1),
        hands_on(111, "seek"@, 2),
        hands_on(112, "make_pipe_at"@, 1),
        hands_on(113, "pipe_r_at"@, 1),
        hands_on(114, "pipe_w_at"@, 1),
        hands_on(115, "exec_sh"@, 1),
        hands_on(116, "exec_split"@, 1),
        hands_on(117, "dup2"@, 2),
        hands_on(118, "cache_open"@, 1),
        hands_on(119, "cache_size"@, 1),
        hands_on(120, "sendfile_fd"@, 3),
        hands_on(121, "sendfile_range"@, 4),
        hands_on(123, "send_rbuf"@, 2),
        hands_on(124, "write_rbuf"@, 3),
        hands_on(125, "str_keep"@, 2),
        hands_on(126, "str_translate_complement"@, 3),
        hands_on(127, "count_newlines"@, 1),
        hands_on(128, "sb_push_i32"@, 1),
        hands_on(129, "sb_push_slice"@, 3),
        hands_on(130, "sendfile_stdout"@, 1),
        hands_on(131, "statvfs_field"@, 2),
        hands_on(132, "uid_to_name"@, 1),
        hands_on(133, "gid_to_name"@, 1),
        hands_on(134, "regex_match"@, 2),
        hands_on(135, "regex_find"@, 2),
        hands_on(136, "regex_find_from"@, 3),
        hands_on(137, "regex_match_len"@, 3),
{
    lemma_handed_on_0();
    lemma_handed_on_1();
    lemma_handed_on_2();
    lemma_handed_on_3();
    lemma_handed_on_4();
    lemma_handed_on_5();
    lemma_handed_on_6();
    lemma_handed_on_7();
}

/// The other builtins are functions, operators and macros of C around their arguments.
pub proof fn law_of_c()
    ensures
        one(0, "str_len"@, "(int32_t)strlen("@, ")"@),
        one(1, "argv"@, "__xlang_argv_g["@, "]"@),
        one(2, "print_raw"@, "printf(\"%s\", "@, ")"@),
        one(3, "assert"@, "(__xlang_assert(("@, "), \"assertion failed\"), 0)"@),
        one(4, "panic"@, "(__xlang_panic("@, "), 0)"@),
        one(7, "int_to_f64"@, "(double)("@, ")"@),
        one(8, "int_to_i64"@, "(int64_t)("@, ")"@),
        two(20, "str_eq"@, "(strcmp("@, ", "@, ") == 0)"@),
        two(39, "str_split"@, "__xlang_str_split("@, ", "@, "[0])"@),
        two(49, "str_char_at"@, "(int32_t)(unsigned char)("@, "["@, "])"@),
        one(50, "rbuf_byte_at"@, "((int32_t)(unsigned char)__xlang_rbuf["@, "])"@),
        one(58, "chdir"@, "chdir(("@, "))"@),
        one(59, "make_dir"@, "mkdir("@, ", 0755)"@),
        one(60, "make_fifo"@, "mkfifo("@, ", 0644)"@),
        one(61, "chroot_call"@, "chroot("@, ")"@),
        builtins::CALLS@[62].0@ == "mknod_dev"@ && builtins::CALLS@[62].1 == 4,
        builtins::CALLS@[62].2@ + builtins::CALLS@[62].3@ + builtins::CALLS@[62].4@ == "mknod("@,
        builtins::CALLS@[62].5@ == ", "@ && builtins::CALLS@[62].6@ == ", ((("@,
        builtins::CALLS@[62].7@ == ") << 8) | (("@ && builtins::CALLS@[62].8@ == ") & 0xff)))"@,
        three(63, "chown_file"@, "chown("@, ", "@, ", "@, ")"@),
        two(64, "chgrp_file"@, "chown("@, ", -1, "@, ")"@),
        two(65, "kill"@, "kill(("@, "), ("@, "))"@),
        one(66, "random_int"@, "(int32_t)(rand() % ("@, "))"@),
        two(73, "link_file"@, "link(("@, "), ("@, "))"@),
        two(74, "truncate_file"@, "truncate(("@, "), ("@, "))"@),
        one(75, "mkfifo"@, "mkfifo(("@, "), 0644)"@),
        one(77, "rmdir"@, "rmdir(("@, "))"@),
        one(78, "str_to_int_oct"@, "(int32_t)strtol("@, ", 0, 8)"@),
        two(79, "chmod"@, "chmod(("@, "), ("@, "))"@),
        two(80, "symlink"@, "symlink(("@, "), ("@, "))"@),
        two(82, "str_cmp"@, "(int32_t)strcmp("@, ", "@, ")"@),
        one(83, "vec_len"@, "((int32_t)("@, ").len)"@),
        one(84, "str_to_int"@, "(int32_t)strtol("@, ", 0, 10)"@),
        one(85, "str_to_float"@, "strtod("@, ", 0)"@),
        one(86, "remove_file"@, "remove("@, ")"@),
        one(87, "system"@, "system("@, ")"@),
        one(88, "sleep_sec"@, "(unsigned)sleep(("@, "))"@),
        two(89, "rename_file"@, "rename("@, ", "@, ")"@),
        one(95, "accept"@, "accept("@, ", 0, 0)"@),
        one(100, "close_fd"@, "close("@, ")"@),
        one(101, "shutdown_wr"@, "shutdown("@, ", SHUT_WR)"@),
        three(122, "send_bytes"@, "send("@, ", "@, ", (size_t)("@, "), 0)"@),
        one(138, "exit"@, "exit("@, ")"@),
        one(139, "eprint_raw"@, "fprintf(stderr, \"%s\", "@, ")"@),
{
    reveal_strlit("");
    assert(""@ + ""@ + "(int32_t)strlen("@ =~= "(int32_t)strlen("@);
    assert(""@ + ""@ + "__xlang_argv_g["@ =~= "__xlang_argv_g["@);
    assert(""@ + ""@ + "printf(\"%s\", "@ =~= "printf(\"%s\", "@);
    reveal_strlit("(__xlang_assert((");
    reveal_strlit("(");
    reveal_strlit("((");
    reveal_strlit("__xlang_assert");
    assert("("@ + "__xlang_assert"@ + "(("@ =~= "(__xlang_assert(("@);
    reveal_strlit("(__xlang_panic(");
    reveal_strlit("__xlang_panic");
    reveal_strlit("(");
    assert("("@ + "__xlang_panic"@ + "("@ =~= "(__xlang_panic("@);
    assert(""@ + ""@ + "(double)("@ =~= "(double)("@);
    assert(""@ + ""@ + "(int64_t)("@ =~= "(int64_t)("@);
    assert(""@ + ""@ + "(strcmp("@ =~= "(strcmp("@);
    assert(""@ + ""@ + "__xlang_str_split("@ =~= "__xlang_str_split("@);
    assert(""@ + ""@ + "(int32_t)(unsigned char)("@ =~= "(int32_t)(unsigned char)("@);
    assert(""@ + ""@ + "((int32_t)(unsigned char)__xlang_rbuf["@ =~= "((int32_t)(unsigned char)__xlang_rbuf["@);
    assert(""@ + ""@ + "chdir(("@ =~= "chdir(("@);
    assert(""@ + ""@ + "mkdir("@ =~= "mkdir("@);
    assert(""@ + ""@ + "mkfifo("@ =~= "mkfifo("@);
    assert(""@ + ""@ + "chroot("@ =~= "chroot("@);
    assert(""@ + ""@ + "mknod("@ =~= "mknod("@);
    assert(""@ + ""@ + "chown("@ =~= "chown("@);
    assert(""@ + ""@ + "chown("@ =~= "chown("@);
    assert(""@ + ""@ + "kill(("@ =~= "kill(("@);
    assert(""@ + ""@ + "(int32_t)(rand() % ("@ =~= "(int32_t)(rand() % ("@);
    assert(""@ + ""@ + "link(("@ =~= "link(("@);
    assert(""@ + ""@ + "truncate(("@ =~= "truncate(("@);
    assert(""@ + ""@ + "mkfifo(("@ =~= "mkfifo(("@);
    assert(""@ + ""@ + "rmdir(("@ =~= "rmdir(("@);
    assert(""@ + ""@ + "(int32_t)strtol("@ =~= "(int32_t)strtol("@);
    assert(""@ + ""@ + "chmod(("@ =~= "chmod(("@);
    assert(""@ + ""@ + "symlink(("@ =~= "symlink(("@);
    assert(""@ + ""@ + "(int32_t)strcmp("@ =~= "(int32_t)strcmp("@);
    assert(""@ + ""@ + "((int32_t)("@ =~= "((int32_t)("@);
    assert(""@ + ""@ + "(int32_t)strtol("@ =~= "(int32_t)strtol("@);
    assert(""@ + ""@ + "strtod("@ =~= "strtod("@);
    assert(""@ + ""@ + "remove("@ =~= "remove("@);
    assert(""@ + ""@ + "system("@ =~= "system("@);
    assert(""@ + ""@ + "(unsigned)sleep(("@ =~= "(unsigned)sleep(("@);
    assert(""@ + ""@ + "rename("@ =~= "rename("@);
    assert(""@ + ""@ + "accept("@ =~= "accept("@);
    assert(""@ + ""@ + "close("@ =~= "close("@);
    assert(""@ + ""@ + "shutdown("@ =~= "shutdown("@);
    assert(""@ + ""@ + "send("@ =~= "send("@);
    assert(""@ + ""@ + "exit("@ =~= "exit("@);
    assert(""@ + ""@ + "fprintf(stderr, \"%s\", "@ =~= "fprintf(stderr, \"%s\", "@);
}

// ---------------------------------------------------------------------------
// Calls
// ---------------------------------------------------------------------------

proof fn lemma_found(name: Seq<char>, k: int)
    requires
        0 <= k <= builtins::CALLS@.len(),
    ensures
        match builtins::call_row(name, k) {
            Some(i) => k <= i < builtins::CALLS@.len() && builtins::CALLS@[i].0@ == name && forall|
                j: int,
            |
                k <= j < i ==> (#[trigger] builtins::CALLS@[j]).0@ != name,
            None => forall|j: int|
                k <= j < builtins::CALLS@.len() ==> (#[trigger] builtins::CALLS@[j]).0@ != name,
        },
    decreases builtins::CALLS@.len() - k,
{
    if k < builtins::CALLS@.len() && builtins::CALLS@[k].0@ != name {
        lemma_found(name, k + 1);
    }
}

/// Whether a builtin is none of the three that drop or repeat an argument.
pub open spec fn in_table(name: Seq<char>) -> bool {
    name != "flush_stdout"@ && name != "getenv"@ && name != "send_str"@
}

/// A builtin is looked up by its name: it is the first of that name, and where there is
/// none of the name it is no builtin.
pub proof fn law_looked_up(name: Seq<char>, i: int)
    requires
        in_table(name),
        0 <= i < builtins::CALLS@.len(),
        builtins::CALLS@[i].0@ == name,
        forall|j: int| 0 <= j < i ==> (#[trigger] builtins::CALLS@[j]).0@ != name,
    ensures
        builtins::call_arity(name) == Some(builtins::CALLS@[i].1 as nat),
        builtins::call_row(name, 0) == Some(i),
{
    reveal(builtins::call_arity);
    lemma_found(name, 0);
}

/// A name that no builtin has is none.
pub proof fn law_no_such_builtin(name: Seq<char>)
    requires
        in_table(name),
        forall|j: int|
            0 <= j < builtins::CALLS@.len() ==> (#[trigger] builtins::CALLS@[j]).0@ != name,
    ensures
        builtins::call_arity(name) is None,
{
    reveal(builtins::call_arity);
    lemma_found(name, 0);
}

/// A call of a builtin that is handed on: the function of the runtime that is called
/// like it, with the arguments in order and commas between them.
pub proof fn law_handed_on_call(name: Seq<char>, i: int, n: usize, a: Seq<Seq<char>>)
    requires
        in_table(name),
        builtins::call_row(name, 0) == Some(i),
        hands_on(i, name, n),
        1 <= n <= 4,
        a.len() == n,
    ensures
        builtins::call_text(name, a) == "__xlang_"@ + name + "("@ + text::joined(a, ", "@) + ")"@,
{
    reveal(builtins::call_text);
    reveal_with_fuel(text::joined, 5);
    reveal_strlit("");
    let front = ""@ + ("__xlang_"@ + name) + "("@;
    assert(front =~= "__xlang_"@ + name + "("@);
    if n == 1 {
        assert(text::joined(a, ", "@) =~= a[0]);
        assert(front + a[0] + ")"@ =~= "__xlang_"@ + name + "("@ + text::joined(a, ", "@) + ")"@);
    } else if n == 2 {
        assert(a.drop_last().last() == a[0]);
        assert(text::joined(a, ", "@) =~= a[0] + ", "@ + a[1]);
        assert(front + a[0] + ", "@ + a[1] + ")"@ =~= "__xlang_"@ + name + "("@ + text::joined(
            a,
            ", "@,
        ) + ")"@);
    } else if n == 3 {
        assert(a.drop_last().last() == a[1]);
        assert(a.drop_last().drop_last().last() == a[0]);
        assert(text::joined(a, ", "@) =~= a[0] + ", "@ + a[1] + ", "@ + a[2]);
        assert(front + a[0] + ", "@ + a[1] + ", "@ + a[2] + ")"@ =~= "__xlang_"@ + name + "("@
            + text::joined(a, ", "@) + ")"@);
    } else {
        assert(a.drop_last().last() == a[2]);
        assert(a.drop_last().drop_last().last() == a[1]);
        assert(a.drop_last().drop_last().drop_last().last() == a[0]);
        assert(text::joined(a, ", "@) =~= a[0] + ", "@ + a[1] + ", "@ + a[2] + ", "@ + a[3]);
        assert(front + a[0] + ", "@ + a[1] + ", "@ + a[2] + ", "@ + a[3] + ")"@ =~= "__xlang_"@
            + name + "("@ + text::joined(a, ", "@) + ")"@);
    }
}

/// A call of any other builtin: the arguments stand between the texts of its row.
pub proof fn law_other_call(name: Seq<char>, i: int, a: Seq<Seq<char>>)
    requires
        in_table(name),
        builtins::call_row(name, 0) == Some(i),
    ensures
        ({
            let row = builtins::CALLS@[i];
            let front = row.2@ + row.3@ + row.4@;
            &&& row.1 == 1 ==> builtins::call_text(name, a) == front + a[0] + row.5@
            &&& row.1 == 2 ==> builtins::call_text(name, a) == front + a[0] + row.5@ + a[1] + row.6@
            &&& row.1 == 3 ==> builtins::call_text(name, a) == front + a[0] + row.5@ + a[1] + row.6@
                + a[2] + row.7@
            &&& row.1 == 4 ==> builtins::call_text(name, a) == front + a[0] + row.5@ + a[1] + row.6@
                + a[2] + row.7@ + a[3] + row.8@
        }),
{
    reveal(builtins::call_text);
}

/// Three builtins drop or repeat an argument.
pub proof fn law_dropped_and_repeated(a: Seq<Seq<char>>)
    ensures
        builtins::call_arity("flush_stdout"@) == Some(1nat),
        builtins::call_text("flush_stdout"@, a) == "fflush(stdout)"@,
        builtins::call_arity("getenv"@) == Some(1nat),
        builtins::call_text("getenv"@, a) == "(getenv("@ + a[0] + ") ? getenv("@ + a[0]
            + ") : \"\")"@,
        builtins::call_arity("send_str"@) == Some(2nat),
        builtins::call_text("send_str"@, a) == "send("@ + a[0] + ", "@ + a[1] + ", strlen("@ + a[1]
            + "), 0)"@,
{
    reveal(builtins::call_arity);
    reveal(builtins::call_text);
    reveal_strlit("flush_stdout");
    reveal_strlit("getenv");
    reveal_strlit("send_str");
    assert("flush_stdout"@.len() == 12 && "getenv"@.len() == 6 && "send_str"@.len() == 8);
}

// ---------------------------------------------------------------------------
// Builtins without arguments, and print builtins
// ---------------------------------------------------------------------------

/// Whether builtin `i` without arguments has this name and becomes this.
pub open spec fn plainly(i: int, name: Seq<char>, c: Seq<char>) -> bool {
    let row = builtins::PLAIN_CALLS@[i];
    row.0@ == name && row.1@ + row.2@ + row.3@ == c
}

/// The builtins without arguments: those of the runtime are called under their own
/// names.
pub proof fn law_plain_builtins()
    ensures
        plainly(0, "fork"@, "fork()"@),
        plainly(1, "getpid"@, "getpid()"@),
        plainly(2, "make_pipe"@, "__xlang_"@ + "make_pipe"@ + "()"@),
        plainly(3, "pipe_read_end"@, "__xlang_"@ + "pipe_read_end"@ + "()"@),
        plainly(4, "pipe_write_end"@, "__xlang_"@ + "pipe_write_end"@ + "()"@),
        plainly(5, "wait_child"@, "__xlang_"@ + "wait_child"@ + "()"@),
        plainly(6, "wait_status"@, "__xlang_"@ + "wait_status"@ + "()"@),
        plainly(7, "epoll_create"@, "__xlang_"@ + "epoll_create"@ + "()"@),
        plainly(8, "argc"@, "(__xlang_argc_g)"@),
        plainly(9, "read_stdin"@, "__xlang_"@ + "read_stdin"@ + "()"@),
        plainly(10, "read_line"@, "__xlang_"@ + "read_line"@ + "()"@),
        plainly(11, "sb_new"@, "__xlang_"@ + "sb_new"@ + "()"@),
        plainly(12, "sb_str"@, "__xlang_"@ + "sb_str"@ + "()"@),
        plainly(13, "ignore_sigpipe"@, "signal(SIGPIPE, SIG_IGN)"@),
        plainly(14, "time_str"@, "__xlang_"@ + "time_str"@ + "()"@),
        plainly(15, "now_s"@, "__xlang_"@ + "now_s"@ + "()"@),
        plainly(16, "time_now"@, "__xlang_"@ + "time_now"@ + "()"@),
        plainly(17, "random_seed"@, "srand((unsigned)time(NULL))"@),
        plainly(18, "getcwd"@, "__xlang_"@ + "getcwd"@ + "()"@),
        plainly(19, "env_count"@, "__xlang_"@ + "env_count"@ + "()"@),
        plainly(20, "tty"@, "__xlang_"@ + "tty"@ + "()"@),
        plainly(21, "uname_machine"@, "__xlang_"@ + "uname_machine"@ + "()"@),
        plainly(22, "rbuf_str"@, "__xlang_"@ + "rbuf_str"@ + "()"@),
        plainly(23, "unreachable"@, "(__xlang_unreachable_(), 0)"@),
        plainly(24, "getuid"@, "getuid()"@),
        plainly(25, "getgid"@, "getgid()"@),
        plainly(26, "read_utmp"@, "__xlang_"@ + "read_utmp"@ + "()"@),
{
    reveal_strlit("");
    reveal_strlit("__xlang_");
    assert("fork()"@ + ""@ + ""@ =~= "fork()"@);
    assert("getpid()"@ + ""@ + ""@ =~= "getpid()"@);
    reveal_strlit("make_pipe");
    reveal_strlit("__xlang_make_pipe");
    assert(""@ + "__xlang_make_pipe"@ + "()"@ =~= "__xlang_"@ + "make_pipe"@ + "()"@);
    reveal_strlit("pipe_read_end");
    reveal_strlit("__xlang_pipe_read_end");
    assert(""@ + "__xlang_pipe_read_end"@ + "()"@ =~= "__xlang_"@ + "pipe_read_end"@ + "()"@);
    reveal_strlit("pipe_write_end");
    reveal_strlit("__xlang_pipe_write_end");
    assert(""@ + "__xlang_pipe_write_end"@ + "()"@ =~= "__xlang_"@ + "pipe_write_end"@ + "()"@);
    reveal_strlit("wait_child");
    reveal_strlit("__xlang_wait_child");
    assert(""@ + "__xlang_wait_child"@ + "()"@ =~= "__xlang_"@ + "wait_child"@ + "()"@);
    reveal_strlit("wait_status");
    reveal_strlit("__xlang_wait_status");
    assert(""@ + "__xlang_wait_status"@ + "()"@ =~= "__xlang_"@ + "wait_status"@ + "()"@);
    reveal_strlit("epoll_create");
    reveal_strlit("__xlang_epoll_create");
    assert(""@ + "__xlang_epoll_create"@ + "()"@ =~= "__xlang_"@ + "epoll_create"@ + "()"@);
    assert("(__xlang_argc_g)"@ + ""@ + ""@ =~= "(__xlang_argc_g)"@);
    reveal_strlit("read_stdin");
    reveal_strlit("__xlang_read_stdin");
    assert(""@ + "__xlang_read_stdin"@ + "()"@ =~= "__xlang_"@ + "read_stdin"@ + "()"@);
    reveal_strlit("read_line");
    reveal_strlit("__xlang_read_line");
    assert(""@ + "__xlang_read_line"@ + "()"@ =~= "__xlang_"@ + "read_line"@ + "()"@);
    reveal_strlit("sb_new");
    reveal_strlit("__xlang_sb_new");
    assert(""@ + "__xlang_sb_new"@ + "()"@ =~= "__xlang_"@ + "sb_new"@ + "()"@);
    reveal_strlit("sb_str");
    reveal_strlit("__xlang_sb_str");
    assert(""@ + "__xlang_sb_str"@ + "()"@ =~= "__xlang_"@ + "sb_str"@ + "()"@);
    assert("signal(SIGPIPE, SIG_IGN)"@ + ""@ + ""@ =~= "signal(SIGPIPE, SIG_IGN)"@);
    reveal_strlit("time_str");
    reveal_strlit("__xlang_time_str");
    assert(""@ + "__xlang_time_str"@ + "()"@ =~= "__xlang_"@ + "time_str"@ + "()"@);
    reveal_strlit("now_s");
    reveal_strlit("__xlang_now_s");
    assert(""@ + "__xlang_now_s"@ + "()"@ =~= "__xlang_"@ + "now_s"@ + "()"@);
    reveal_strlit("time_now");
    reveal_strlit("__xlang_time_now");
    assert(""@ + "__xlang_time_now"@ + "()"@ =~= "__xlang_"@ + "time_now"@ + "()"@);
    assert("srand((unsigned)time(NULL))"@ + ""@ + ""@ =~= "srand((unsigned)time(NULL))"@);
    reveal_strlit("getcwd");
    reveal_strlit("__xlang_getcwd");
    assert(""@ + "__xlang_getcwd"@ + "()"@ =~= "__xlang_"@ + "getcwd"@ + "()"@);
    reveal_strlit("env_count");
    reveal_strlit("__xlang_env_count");
    assert(""@ + "__xlang_env_count"@ + "()"@ =~= "__xlang_"@ + "env_count"@ + "()"@);
    reveal_strlit("tty");
    reveal_strlit("__xlang_tty");
    assert(""@ + "__xlang_tty"@ + "()"@ =~= "__xlang_"@ + "tty"@ + "()"@);
    reveal_strlit("uname_machine");
    reveal_strlit("__xlang_uname_machine");
    assert(""@ + "__xlang_uname_machine"@ + "()"@ =~= "__xlang_"@ + "uname_machine"@ + "()"@);
    reveal_strlit("rbuf_str");
    reveal_strlit("__xlang_rbuf_str");
    assert(""@ + "__xlang_rbuf_str"@ + "()"@ =~= "__xlang_"@ + "rbuf_str"@ + "()"@);
    reveal_strlit("(");
    reveal_strlit("__xlang_unreachable_");
    reveal_strlit("(), 0)");
    reveal_strlit("(__xlang_unreachable_(), 0)");
    assert("("@ + "__xlang_unreachable_"@ + "(), 0)"@ =~= "(__xlang_unreachable_(), 0)"@);
    assert("getuid()"@ + ""@ + ""@ =~= "getuid()"@);
    assert("getgid()"@ + ""@ + ""@ =~= "getgid()"@);
    reveal_strlit("read_utmp");
    reveal_strlit("__xlang_read_utmp");
    assert(""@ + "__xlang_read_utmp"@ + "()"@ =~= "__xlang_"@ + "read_utmp"@ + "()"@);
}

proof fn lemma_plain_found(name: Seq<char>, k: int)
    requires
        0 <= k <= builtins::PLAIN_CALLS@.len(),
    ensures
        match builtins::plain_row(name, k) {
            Some(i) => k <= i < builtins::PLAIN_CALLS@.len() && builtins::PLAIN_CALLS@[i].0@ == name
                && forall|j: int|
                k <= j < i ==> (#[trigger] builtins::PLAIN_CALLS@[j]).0@ != name,
            None => forall|j: int|
                k <= j < builtins::PLAIN_CALLS@.len() ==> (#[trigger] builtins::PLAIN_CALLS@[j]).0@
                    != name,
        },
    decreases builtins::PLAIN_CALLS@.len() - k,
{
    if k < builtins::PLAIN_CALLS@.len() && builtins::PLAIN_CALLS@[k].0@ != name {
        lemma_plain_found(name, k + 1);
    }
}

/// A builtin without arguments is looked up by its name.
pub proof fn law_plain_call(name: Seq<char>)
    ensures
        match builtins::plain_text(name) {
            Some(c) => exists|i: int|
                0 <= i < builtins::PLAIN_CALLS@.len() && #[trigger] plainly(i, name, c) && forall|
                    j: int,
                |
                    0 <= j < i ==> (#[trigger] builtins::PLAIN_CALLS@[j]).0@ != name,
            None => forall|j: int|
                0 <= j < builtins::PLAIN_CALLS@.len() ==> (#[trigger] builtins::PLAIN_CALLS@[j]).0@
                    != name,
        },
{
    reveal(builtins::plain_text);
    lemma_plain_found(name, 0);
    if let Some(c) = builtins::plain_text(name) {
        assert(plainly(builtins::plain_row(name, 0)->0, name, c));
    }
}

/// The print builtins write a line: numbers, strings and truth values by the format for
/// them, to the standard output or, with an `e`, to the standard error.
pub proof fn law_print_builtins(a: Seq<char>)
    ensures
        builtins::print_text("print_i32"@, a) == Some("printf(\"%d\\n\", "@ + a + ")"@),
        builtins::print_text("print_f64"@, a) == Some("printf(\"%f\\n\", "@ + a + ")"@),
        builtins::print_text("print_str"@, a) == Some("printf(\"%s\\n\", "@ + a + ")"@),
        builtins::print_text("print_bool"@, a) == Some("printf(\"%s\\n\", ("@ + a + ") ? \"true\" : \"false\")"@),
        builtins::print_text("eprint_i32"@, a) == Some("fprintf(stderr, \"%d\\n\", "@ + a + ")"@),
        builtins::print_text("eprint_f64"@, a) == Some("fprintf(stderr, \"%f\\n\", "@ + a + ")"@),
        builtins::print_text("eprint_str"@, a) == Some("fprintf(stderr, \"%s\\n\", "@ + a + ")"@),
        builtins::print_text("eprint_bool"@, a) == Some("fprintf(stderr, \"%s\\n\", ("@ + a + ") ? \"true\" : \"false\")"@),
{
    reveal(builtins::print_text);
    reveal_with_fuel(builtins::print_row, 9);
    reveal_strlit("print_i32");
    reveal_strlit("print_f64");
    reveal_strlit("print_str");
    reveal_strlit("print_bool");
    reveal_strlit("eprint_i32");
    reveal_strlit("eprint_f64");
    reveal_strlit("eprint_str");
    reveal_strlit("eprint_bool");
    assert("print_i32"@.len() == 9 && "print_i32"@[6] == 'i' && "print_i32"@[8] == '2');
    assert("print_f64"@.len() == 9 && "print_f64"@[6] == 'f' && "print_f64"@[8] == '4');
    assert("print_str"@.len() == 9 && "print_str"@[6] == 's' && "print_str"@[8] == 'r');
    assert("print_bool"@.len() == 10 && "print_bool"@[7] == 'o' && "print_bool"@[9] == 'l');
    assert("eprint_i32"@.len() == 10 && "eprint_i32"@[7] == 'i' && "eprint_i32"@[9] == '2');
    assert("eprint_f64"@.len() == 10 && "eprint_f64"@[7] == 'f' && "eprint_f64"@[9] == '4');
    assert("eprint_str"@.len() == 10 && "eprint_str"@[7] == 's' && "eprint_str"@[9] == 'r');
    assert("eprint_bool"@.len() == 11 && "eprint_bool"@[8] == 'o' && "eprint_bool"@[10] == 'l');
}

/// No other name is that of a print builtin.
pub proof fn law_no_other_print(name: Seq<char>, a: Seq<char>)
    requires
        name != "print_i32"@,
        name != "print_f64"@,
        name != "print_str"@,
        name != "print_bool"@,
        name != "eprint_i32"@,
        name != "eprint_f64"@,
        name != "eprint_str"@,
        name != "eprint_bool"@,
    ensures
        builtins::print_text(name, a) is None,
{
    reveal(builtins::print_text);
    reveal_with_fuel(builtins::print_row, 9);
}

/// The builtins that need the TLS part of the runtime.
pub proof fn law_tls_builtins(name: Seq<char>)
    ensures
        builtins::is_tls(name) <==> (name == "tls_ctx_new"@ || name == "tls_accept"@ || name
            == "tls_write"@ || name == "tls_read"@ || name == "tls_close"@),
{
}

} // verus!
