//! Recognizers for command arguments: URLs, output paths, upload flags,
//! credential and startup paths, and privilege wrappers.
use vstd::prelude::*;
use crate::shell::{CommandView, Redirect, RedirectView, SimpleCommand, slice_chars};
use crate::text::{chars_eq, chars_of, contains_chars, contains_text, copy_chars, has_prefix, is_whitespace, is_ws, join, join_chars, lower, starts_with, to_lower};

verus! {

broadcast use crate::text::lemma_char_vec_deep_view;

/// Whether a text mentions an `http://` or `https://` URL.
pub open spec fn mentions_url(s: Seq<char>) -> bool {
    contains_text(s, "http://"@) || contains_text(s, "https://"@)
}

/// Whether a text mentions an `http://` or `https://` URL.
pub fn contains_url(input: &[char]) -> (r: bool)
    ensures
        r == mentions_url(input@),
{
    contains_chars(input, &chars_of("http://")) || contains_chars(input, &chars_of("https://"))
}

/// Characters at which a text is cut into URL candidates.
pub open spec fn is_url_sep(c: char) -> bool {
    is_ws(c) || c == '"' || c == '\'' || c == ')' || c == '(' || c == ';' || c == ','
}

/// The pieces of `s` between separators, from index `i` on (like `str::split`).
pub open spec fn pieces_from(s: Seq<char>, i: int, cur: Seq<char>, out: Seq<Seq<char>>) -> Seq<Seq<char>>
    decreases s.len() - i,
{
    if i < 0 || i >= s.len() {
        out.push(cur)
    } else if is_url_sep(s[i]) {
        pieces_from(s, i + 1, Seq::empty(), out.push(cur))
    } else {
        pieces_from(s, i + 1, cur.push(s[i]), out)
    }
}

/// A piece without its trailing `.`, `,` and `;`.
pub open spec fn trim_url_end(s: Seq<char>) -> Seq<char>
    decreases s.len(),
{
    if s.len() > 0 && (s.last() == '.' || s.last() == ',' || s.last() == ';') {
        trim_url_end(s.drop_last())
    } else {
        s
    }
}

/// Whether a piece starts like a URL.
pub open spec fn is_url_start(s: Seq<char>) -> bool {
    starts_with(s, "http://"@) || starts_with(s, "https://"@)
}

/// The URLs among the pieces from index `i` on.
pub open spec fn urls_of_pieces(pieces: Seq<Seq<char>>, i: int) -> Seq<Seq<char>>
    decreases pieces.len() - i,
{
    if i < 0 || i >= pieces.len() {
        Seq::empty()
    } else if is_url_start(pieces[i]) {
        seq![trim_url_end(pieces[i])] + urls_of_pieces(pieces, i + 1)
    } else {
        urls_of_pieces(pieces, i + 1)
    }
}

/// The URLs written in a text, in order.
pub open spec fn urls_in(s: Seq<char>) -> Seq<Seq<char>> {
    urls_of_pieces(pieces_from(s, 0, Seq::empty(), Seq::empty()), 0)
}

/// A piece without its trailing `.`, `,` and `;`.
fn trim_url_end_exec(s: &[char]) -> (r: Vec<char>)
    ensures
        r@ == trim_url_end(s@),
{
    let mut end = s.len();
    assert(s@.take(end as int) =~= s@);
    while end > 0 && (s[end - 1] == '.' || s[end - 1] == ',' || s[end - 1] == ';')
        invariant
            end <= s@.len(),
            trim_url_end(s@) == trim_url_end(s@.take(end as int)),
        decreases end,
    {
        assert(s@.take(end as int).drop_last() =~= s@.take(end - 1));
        end = end - 1;
    }
    let r = slice_chars(s, 0, end);
    assert(r@ =~= s@.take(end as int));
    r
}

/// The URLs written in a text, in order.
pub fn extract_urls(input: &[char]) -> (r: Vec<Vec<char>>)
    ensures
        r.deep_view() == urls_in(input@),
{
    let n = input.len();
    let mut pieces: Vec<Vec<char>> = Vec::new();
    let mut cur: Vec<char> = Vec::new();
    let mut i: usize = 0;
    assert(pieces.deep_view() =~= Seq::<Seq<char>>::empty());
    while i < n
        invariant
            n == input@.len(),
            i <= n,
            pieces_from(input@, 0, Seq::empty(), Seq::empty()) == pieces_from(
                input@,
                i as int,
                cur@,
                pieces.deep_view(),
            ),
        decreases n - i,
    {
        let c = input[i];
        if is_whitespace(c) || c == '"' || c == '\'' || c == ')' || c == '(' || c == ';' || c == ',' {
            let mut done: Vec<char> = Vec::new();
            std::mem::swap(&mut done, &mut cur);
            let ghost before = pieces.deep_view();
            let ghost dv = done@;
            pieces.push(done);
            assert(pieces.deep_view() =~= before.push(dv));
        } else {
            cur.push(c);
        }
        i = i + 1;
    }
    let ghost before = pieces.deep_view();
    let ghost cv = cur@;
    pieces.push(cur);
    assert(pieces.deep_view() =~= before.push(cv));
    let http = chars_of("http://");
    let https = chars_of("https://");
    let mut out: Vec<Vec<char>> = Vec::new();
    let mut k = pieces.len();
    assert(out.deep_view() =~= Seq::<Seq<char>>::empty());
    while k > 0
        invariant
            k <= pieces@.len(),
            http@ == "http://"@,
            https@ == "https://"@,
            out.deep_view() == urls_of_pieces(pieces.deep_view(), k as int),
        decreases k,
    {
        k = k - 1;
        if has_prefix(&pieces[k], &http) || has_prefix(&pieces[k], &https) {
            let t = trim_url_end_exec(&pieces[k]);
            let ghost rest = out.deep_view();
            let mut next: Vec<Vec<char>> = Vec::new();
            next.push(t);
            let mut m: usize = 0;
            while m < out.len()
                invariant
                    m <= out@.len(),
                    next.deep_view() == seq![trim_url_end(pieces.deep_view()[k as int])] + rest.take(m as int),
                    rest == out.deep_view(),
                decreases out@.len() - m,
            {
                let c = copy_chars(&out[m]);
                let ghost nb = next.deep_view();
                next.push(c);
                assert(next.deep_view() =~= nb.push(rest[m as int]));
                m = m + 1;
                assert(seq![trim_url_end(pieces.deep_view()[k as int])] + rest.take(m as int) =~= nb.push(rest[m - 1]));
            }
            assert(rest.take(m as int) =~= rest);
            out = next;
        }
    }
    out
}

/// The URLs written in the arguments that mention one, in order.
pub open spec fn urls_in_args(args: Seq<Seq<char>>) -> Seq<Seq<char>>
    decreases args.len(),
{
    if args.len() == 0 {
        Seq::empty()
    } else {
        urls_in_args(args.drop_last()) + if mentions_url(args.last()) {
            urls_in(args.last())
        } else {
            Seq::empty()
        }
    }
}

/// Appends copies of `more` to `out`.
pub fn append_words(out: &mut Vec<Vec<char>>, more: &Vec<Vec<char>>)
    ensures
        final(out).deep_view() == old(out).deep_view() + more.deep_view(),
{
    let mut m: usize = 0;
    while m < more.len()
        invariant
            m <= more@.len(),
            out.deep_view() == old(out).deep_view() + more.deep_view().take(m as int),
        decreases more@.len() - m,
    {
        let c = copy_chars(&more[m]);
        let ghost b = out.deep_view();
        out.push(c);
        assert(out.deep_view() =~= b.push(more.deep_view()[m as int]));
        m = m + 1;
        assert(old(out).deep_view() + more.deep_view().take(m as int) =~= b.push(more.deep_view()[m - 1]));
    }
    assert(more.deep_view().take(m as int) =~= more.deep_view());
}

/// The URLs written in the arguments, in order.
pub fn find_urls(args: &Vec<Vec<char>>) -> (r: Vec<Vec<char>>)
    ensures
        r.deep_view() == urls_in_args(args.deep_view()),
{
    let mut out: Vec<Vec<char>> = Vec::new();
    let mut i: usize = 0;
    assert(out.deep_view() =~= Seq::<Seq<char>>::empty());
    while i < args.len()
        invariant
            i <= args@.len(),
            out.deep_view() == urls_in_args(args.deep_view().take(i as int)),
        decreases args@.len() - i,
    {
        let ghost t = args.deep_view().take(i + 1);
        assert(t.drop_last() =~= args.deep_view().take(i as int));
        if contains_url(&args[i]) {
            let found = extract_urls(&args[i]);
            append_words(&mut out, &found);
        } else {
            assert(out.deep_view() =~= out.deep_view() + Seq::<Seq<char>>::empty());
        }
        i = i + 1;
    }
    assert(args.deep_view().take(args@.len() as int) =~= args.deep_view());
    out
}

/// `s` with every leading copy of the prefix `p` removed (`trim_start_matches`).
pub open spec fn strip_prefix_all(s: Seq<char>, p: Seq<char>) -> Seq<char>
    decreases s.len(),
{
    if p.len() > 0 && starts_with(s, p) {
        strip_prefix_all(s.skip(p.len() as int), p)
    } else {
        s
    }
}

/// `s` with every leading copy of the prefix `p` removed.
pub fn strip_prefix_repeated(s: &[char], p: &[char]) -> (r: Vec<char>)
    ensures
        r@ == strip_prefix_all(s@, p@),
{
    let mut start: usize = 0;
    assert(s@.skip(0) =~= s@);
    while p.len() > 0 && start <= s.len() && crate::text::matches_at(s, p, start)
        invariant
            start <= s@.len(),
            strip_prefix_all(s@, p@) == strip_prefix_all(s@.skip(start as int), p@),
        decreases s@.len() - start,
    {
        assert(s@.skip(start as int).subrange(0, p@.len() as int) =~= s@.subrange(start as int, start + p@.len()));
        assert(s@.skip(start as int).skip(p@.len() as int) =~= s@.skip(start + p@.len()));
        start = start + p.len();
    }
    proof {
        if p@.len() > 0 {
            assert(s@.skip(start as int).len() >= p@.len() ==> s@.skip(start as int).subrange(0, p@.len() as int)
                =~= s@.subrange(start as int, start + p@.len()));
        }
    }
    slice_chars(s, start, s.len())
}

/// Output paths named by `short PATH`, `long PATH` or `long=PATH`, from index `i` on.
pub open spec fn outputs_from(
    args: Seq<Seq<char>>,
    i: int,
    short: Seq<char>,
    long: Seq<char>,
    long_eq: Seq<char>,
    out: Seq<Seq<char>>,
) -> Seq<Seq<char>>
    decreases args.len() - i,
{
    if i < 0 || i >= args.len() {
        out
    } else if args[i] == short || args[i] == long {
        if i + 1 < args.len() {
            outputs_from(args, i + 2, short, long, long_eq, out.push(args[i + 1]))
        } else {
            out
        }
    } else if starts_with(args[i], long_eq) {
        outputs_from(args, i + 1, short, long, long_eq, out.push(strip_prefix_all(args[i], long_eq)))
    } else {
        outputs_from(args, i + 1, short, long, long_eq, out)
    }
}

/// Output paths named by `short PATH`, `long PATH` or `long=PATH`.
fn output_paths(args: &Vec<Vec<char>>, short: &[char], long: &[char], long_eq: &[char]) -> (r: Vec<Vec<char>>)
    ensures
        r.deep_view() == outputs_from(args.deep_view(), 0, short@, long@, long_eq@, Seq::empty()),
{
    let n = args.len();
    let mut out: Vec<Vec<char>> = Vec::new();
    let mut i: usize = 0;
    assert(out.deep_view() =~= Seq::<Seq<char>>::empty());
    while i < n
        invariant
            n == args@.len(),
            i <= n,
            outputs_from(args.deep_view(), 0, short@, long@, long_eq@, Seq::empty()) == outputs_from(
                args.deep_view(),
                i as int,
                short@,
                long@,
                long_eq@,
                out.deep_view(),
            ),
        decreases n - i,
    {
        if chars_eq(&args[i], short) || chars_eq(&args[i], long) {
            if i + 1 < n {
                let p = copy_chars(&args[i + 1]);
                let ghost b = out.deep_view();
                out.push(p);
                assert(out.deep_view() =~= b.push(args.deep_view()[i + 1]));
                i = i + 2;
            } else {
                return out;
            }
        } else if has_prefix(&args[i], long_eq) {
            let p = strip_prefix_repeated(&args[i], long_eq);
            let ghost b = out.deep_view();
            let ghost pv = p@;
            out.push(p);
            assert(out.deep_view() =~= b.push(pv));
            i = i + 1;
        } else {
            i = i + 1;
        }
    }
    out
}

/// The files that `curl` writes with `-o`, `--output` or `--output=`.
pub open spec fn curl_outputs(args: Seq<Seq<char>>) -> Seq<Seq<char>> {
    outputs_from(args, 0, "-o"@, "--output"@, "--output="@, Seq::empty())
}

/// The files that `wget` writes with `-O`, `--output-document` or `--output-document=`.
pub open spec fn wget_outputs(args: Seq<Seq<char>>) -> Seq<Seq<char>> {
    outputs_from(args, 0, "-O"@, "--output-document"@, "--output-document="@, Seq::empty())
}

/// The files that `curl` writes.
pub fn curl_output_paths(args: &Vec<Vec<char>>) -> (r: Vec<Vec<char>>)
    ensures
        r.deep_view() == curl_outputs(args.deep_view()),
{
    output_paths(args, &chars_of("-o"), &chars_of("--output"), &chars_of("--output="))
}

/// The files that `wget` writes.
pub fn wget_output_paths(args: &Vec<Vec<char>>) -> (r: Vec<Vec<char>>)
    ensures
        r.deep_view() == wget_outputs(args.deep_view()),
{
    output_paths(args, &chars_of("-O"), &chars_of("--output-document"), &chars_of("--output-document="))
}

/// Whether a curl argument sends data.
pub open spec fn is_upload_flag(a: Seq<char>) -> bool {
    ||| a == "-d"@
    ||| a == "--data"@
    ||| a == "--data-binary"@
    ||| a == "--data-raw"@
    ||| a == "-F"@
    ||| a == "--form"@
    ||| a == "-T"@
    ||| a == "--upload-file"@
    ||| starts_with(a, "--data="@)
    ||| starts_with(a, "--data-binary="@)
    ||| starts_with(a, "--upload-file="@)
}

/// Whether a curl argument sends data.
fn upload_flag(a: &[char]) -> (r: bool)
    ensures
        r == is_upload_flag(a@),
{
    chars_eq(a, &chars_of("-d")) || chars_eq(a, &chars_of("--data")) || chars_eq(a, &chars_of("--data-binary"))
        || chars_eq(a, &chars_of("--data-raw")) || chars_eq(a, &chars_of("-F")) || chars_eq(
        a,
        &chars_of("--form"),
    ) || chars_eq(a, &chars_of("-T")) || chars_eq(a, &chars_of("--upload-file")) || has_prefix(
        a,
        &chars_of("--data="),
    ) || has_prefix(a, &chars_of("--data-binary=")) || has_prefix(a, &chars_of("--upload-file="))
}

/// Whether curl is configured to send data.
pub open spec fn sends_data(args: Seq<Seq<char>>) -> bool {
    exists|i: int| 0 <= i < args.len() && is_upload_flag(#[trigger] args[i])
}

/// Whether curl is configured to send data.
pub fn curl_uploads(args: &Vec<Vec<char>>) -> (r: bool)
    ensures
        r == sends_data(args.deep_view()),
{
    let mut i: usize = 0;
    while i < args.len()
        invariant
            i <= args@.len(),
            forall|j: int| 0 <= j < i ==> !is_upload_flag(#[trigger] args.deep_view()[j]),
        decreases args@.len() - i,
    {
        if upload_flag(&args[i]) {
            assert(is_upload_flag(args.deep_view()[i as int]));
            return true;
        }
        i = i + 1;
    }
    false
}

/// `s` with each two-character `\n` escape replaced by a newline, left to right.
pub open spec fn unescape_newlines(s: Seq<char>) -> Seq<char>
    decreases s.len(),
{
    if s.len() == 0 {
        s
    } else if s.len() >= 2 && s[0] == '\\' && s[1] == 'n' {
        seq!['\n'] + unescape_newlines(s.skip(2))
    } else {
        seq![s[0]] + unescape_newlines(s.skip(1))
    }
}

/// The literal text that `printf` prints for the given arguments.
pub open spec fn printf_text(args: Seq<Seq<char>>) -> Seq<char> {
    if args.len() == 0 {
        Seq::empty()
    } else if contains_text(args[0], "%s"@) && args.len() > 1 {
        join(args.skip(1), " "@)
    } else {
        unescape_newlines(args[0])
    }
}

/// The literal text that `printf` prints for the given arguments.
pub fn printf_literal(args: &Vec<Vec<char>>) -> (r: Vec<char>)
    ensures
        r@ == printf_text(args.deep_view()),
{
    if args.len() == 0 {
        return Vec::new();
    }
    if contains_chars(&args[0], &chars_of("%s")) && args.len() > 1 {
        let rest = crate::rules::words_tail(args, 1);
        return join_chars(&rest, &chars_of(" "));
    }
    let s = &args[0];
    let n = s.len();
    let mut out: Vec<char> = Vec::new();
    let mut i: usize = 0;
    assert(s@.skip(0) =~= s@);
    while i < n
        invariant
            n == s@.len(),
            i <= n,
            unescape_newlines(s@) == out@ + unescape_newlines(s@.skip(i as int)),
        decreases n - i,
    {
        let ghost rest = s@.skip(i as int);
        if i + 1 < n && s[i] == '\\' && s[i + 1] == 'n' {
            out.push('\n');
            assert(rest.skip(2) =~= s@.skip(i + 2));
            i = i + 2;
        } else {
            out.push(s[i]);
            assert(rest.skip(1) =~= s@.skip(i + 1));
            i = i + 1;
        }
    }
    assert(s@.skip(n as int) =~= Seq::<char>::empty());
    assert(out@ =~= out@ + Seq::<char>::empty());
    out
}

/// Copies of the words from index `from` on.
pub fn words_tail(words: &Vec<Vec<char>>, from: usize) -> (r: Vec<Vec<char>>)
    requires
        from <= words@.len(),
    ensures
        r.deep_view() == words.deep_view().skip(from as int),
{
    let mut out: Vec<Vec<char>> = Vec::new();
    let mut k = from;
    while k < words.len()
        invariant
            from <= k <= words@.len(),
            out.deep_view() == words.deep_view().subrange(from as int, k as int),
        decreases words@.len() - k,
    {
        let w = copy_chars(&words[k]);
        let ghost before = out.deep_view();
        out.push(w);
        assert(out.deep_view() =~= before.push(words.deep_view()[k as int]));
        k = k + 1;
        assert(out.deep_view() =~= words.deep_view().subrange(from as int, k as int));
    }
    assert(words.deep_view().subrange(from as int, words@.len() as int) =~= words.deep_view().skip(from as int));
    out
}

/// The word after the first argument (before the last) that is one of `flags`.
pub open spec fn after_flag_from(args: Seq<Seq<char>>, flags: Seq<Seq<char>>, i: int) -> Option<Seq<char>>
    decreases args.len() - i,
{
    if i < 0 || i + 1 >= args.len() {
        None
    } else if flags.contains(args[i]) {
        Some(args[i + 1])
    } else {
        after_flag_from(args, flags, i + 1)
    }
}

/// The script given after the first of `flags` (like `-c SCRIPT`).
pub open spec fn script_after(args: Seq<Seq<char>>, flags: Seq<Seq<char>>) -> Option<Seq<char>> {
    after_flag_from(args, flags, 0)
}

/// The script given after the first of `flags`.
pub fn script_after_any_flag(args: &Vec<Vec<char>>, flags: &Vec<Vec<char>>) -> (r: Option<Vec<char>>)
    ensures
        r.deep_view() == script_after(args.deep_view(), flags.deep_view()),
{
    let n = args.len();
    let mut i: usize = 0;
    while n > 0 && i < n - 1
        invariant
            n == args@.len(),
            script_after(args.deep_view(), flags.deep_view()) == after_flag_from(
                args.deep_view(),
                flags.deep_view(),
                i as int,
            ),
        decreases n - i,
    {
        let mut k: usize = 0;
        while k < flags.len()
            invariant
                k <= flags@.len(),
                i + 1 < n,
                n == args@.len(),
                forall|q: int| 0 <= q < k ==> flags.deep_view()[q] != args.deep_view()[i as int],
                script_after(args.deep_view(), flags.deep_view()) == after_flag_from(
                    args.deep_view(),
                    flags.deep_view(),
                    i as int,
                ),
            decreases flags@.len() - k,
        {
            if chars_eq(&flags[k], &args[i]) {
                assert(flags.deep_view()[k as int] == args.deep_view()[i as int]);
                assert(flags.deep_view().contains(args.deep_view()[i as int]));
                let r = copy_chars(&args[i + 1]);
                assert(r@ == args.deep_view()[i + 1]);
                return Some(r);
            }
            k = k + 1;
        }
        proof {
            if flags.deep_view().contains(args.deep_view()[i as int]) {
                let q = choose|q: int| 0 <= q < flags.deep_view().len() && flags.deep_view()[q] == args.deep_view()[i as int];
                assert(flags.deep_view()[q] == args.deep_view()[i as int]);
            }
        }
        i = i + 1;
    }
    None
}

/// The script given after `flag`.
pub fn script_after_flag(args: &Vec<Vec<char>>, flag: &[char]) -> (r: Option<Vec<char>>)
    ensures
        r.deep_view() == script_after(args.deep_view(), seq![flag@]),
{
    let mut flags: Vec<Vec<char>> = Vec::new();
    flags.push(copy_chars(flag));
    assert(flags.deep_view() =~= seq![flag@]);
    script_after_any_flag(args, &flags)
}

/// `s` without leading copies of `c`.
pub open spec fn trim_start_char(s: Seq<char>, c: char) -> Seq<char>
    decreases s.len(),
{
    if s.len() > 0 && s[0] == c {
        trim_start_char(s.drop_first(), c)
    } else {
        s
    }
}

/// `s` without trailing copies of `c`.
pub open spec fn trim_end_char(s: Seq<char>, c: char) -> Seq<char>
    decreases s.len(),
{
    if s.len() > 0 && s.last() == c {
        trim_end_char(s.drop_last(), c)
    } else {
        s
    }
}

/// `s` without leading and trailing copies of `c` (`trim_matches`).
pub open spec fn trim_char(s: Seq<char>, c: char) -> Seq<char> {
    trim_end_char(trim_start_char(s, c), c)
}

/// A path without surrounding double and then single quotes.
pub open spec fn cleaned_path(p: Seq<char>) -> Seq<char> {
    trim_char(trim_char(p, '"'), '\'')
}

/// `s` without leading and trailing copies of `c`.
fn trim_chars(s: &[char], c: char) -> (r: Vec<char>)
    ensures
        r@ == trim_char(s@, c),
{
    let n = s.len();
    let mut a: usize = 0;
    assert(s@.skip(0) =~= s@);
    while a < n && s[a] == c
        invariant
            a <= n,
            n == s@.len(),
            trim_start_char(s@, c) == trim_start_char(s@.skip(a as int), c),
        decreases n - a,
    {
        assert(s@.skip(a as int).drop_first() =~= s@.skip(a + 1));
        a = a + 1;
    }
    let mut b: usize = n;
    assert(s@.subrange(a as int, b as int) =~= s@.skip(a as int));
    while b > a && s[b - 1] == c
        invariant
            a <= b <= n,
            n == s@.len(),
            trim_char(s@, c) == trim_end_char(s@.subrange(a as int, b as int), c),
        decreases b,
    {
        assert(s@.subrange(a as int, b as int).drop_last() =~= s@.subrange(a as int, b - 1));
        b = b - 1;
    }
    slice_chars(s, a, b)
}

/// A path without surrounding quotes.
pub fn clean_path(path: &[char]) -> (r: Vec<char>)
    ensures
        r@ == cleaned_path(path@),
{
    let t = trim_chars(path, '"');
    trim_chars(&t, '\'')
}

/// Whether a path names credential material (SSH, GnuPG, cloud, Docker or browser data).
pub open spec fn is_credential(path: Seq<char>) -> bool {
    let l = lower(path);
    ||| contains_text(l, ".ssh"@)
    ||| contains_text(l, "id_rsa"@)
    ||| contains_text(l, "id_ed25519"@)
    ||| contains_text(l, ".gnupg"@)
    ||| contains_text(l, ".aws/credentials"@)
    ||| contains_text(l, ".config/gcloud"@)
    ||| contains_text(l, ".docker/config.json"@)
    ||| contains_text(l, ".mozilla/firefox"@)
    ||| contains_text(l, ".config/google-chrome"@)
    ||| contains_text(l, ".config/chromium"@)
    ||| contains_text(l, "login data"@)
    ||| contains_text(l, "cookies"@)
}

/// Whether a path names credential material.
pub fn is_credential_path(path: &[char]) -> (r: bool)
    ensures
        r == is_credential(path@),
{
    let l = to_lower(path);
    contains_chars(&l, &chars_of(".ssh")) || contains_chars(&l, &chars_of("id_rsa")) || contains_chars(
        &l,
        &chars_of("id_ed25519"),
    ) || contains_chars(&l, &chars_of(".gnupg")) || contains_chars(&l, &chars_of(".aws/credentials"))
        || contains_chars(&l, &chars_of(".config/gcloud")) || contains_chars(
        &l,
        &chars_of(".docker/config.json"),
    ) || contains_chars(&l, &chars_of(".mozilla/firefox")) || contains_chars(
        &l,
        &chars_of(".config/google-chrome"),
    ) || contains_chars(&l, &chars_of(".config/chromium")) || contains_chars(&l, &chars_of("login data"))
        || contains_chars(&l, &chars_of("cookies"))
}

/// Whether a path is a shell profile, autostart, cron or user-service location.
pub open spec fn is_persistence(path: Seq<char>) -> bool {
    let l = lower(path);
    ||| contains_text(l, ".bashrc"@)
    ||| contains_text(l, ".bash_profile"@)
    ||| contains_text(l, ".profile"@)
    ||| contains_text(l, ".zshrc"@)
    ||| contains_text(l, ".config/autostart"@)
    ||| contains_text(l, ".config/systemd/user"@)
    ||| contains_text(l, ".config/fish/conf.d"@)
    ||| contains_text(l, "/etc/profile"@)
    ||| contains_text(l, "/etc/cron"@)
    ||| contains_text(l, "crontab"@)
}

/// Whether a path is a location that runs code later.
pub fn is_persistence_path(path: &[char]) -> (r: bool)
    ensures
        r == is_persistence(path@),
{
    let l = to_lower(path);
    contains_chars(&l, &chars_of(".bashrc")) || contains_chars(&l, &chars_of(".bash_profile"))
        || contains_chars(&l, &chars_of(".profile")) || contains_chars(&l, &chars_of(".zshrc"))
        || contains_chars(&l, &chars_of(".config/autostart")) || contains_chars(
        &l,
        &chars_of(".config/systemd/user"),
    ) || contains_chars(&l, &chars_of(".config/fish/conf.d")) || contains_chars(
        &l,
        &chars_of("/etc/profile"),
    ) || contains_chars(&l, &chars_of("/etc/cron")) || contains_chars(&l, &chars_of("crontab"))
}

/// The index of the first argument from `i` on that is not an option; a `--`
/// is skipped and ends the options.
pub open spec fn options_end(args: Seq<Seq<char>>, i: int) -> int
    decreases args.len() - i,
{
    if i < 0 || i >= args.len() {
        i
    } else if args[i] == "--"@ {
        i + 1
    } else if starts_with(args[i], "-"@) {
        options_end(args, i + 1)
    } else {
        i
    }
}

/// The command run by a privilege wrapper (`sudo`, `pkexec`, `doas`, or `su -c`).
pub open spec fn unwrap_privilege(name: Seq<char>, cmd: CommandView) -> Option<CommandView> {
    if name == "su"@ {
        match script_after(cmd.args, seq!["-c"@]) {
            Some(script) => Some(
                CommandView {
                    name: "sh"@,
                    args: seq!["-c"@, script],
                    raw_words: seq!["sh"@, "-c"@, script],
                    redirects: Seq::empty(),
                },
            ),
            None => None,
        }
    } else {
        let rest = cmd.args.skip(options_end(cmd.args, 0));
        if rest.len() == 0 {
            None
        } else {
            Some(CommandView { name: rest[0], args: rest.skip(1), raw_words: rest, redirects: cmd.redirects })
        }
    }
}

/// A copy of a command's redirections.
pub fn copy_redirects(r: &Vec<Redirect>) -> (out: Vec<Redirect>)
    ensures
        out.deep_view() == r.deep_view(),
{
    let mut out: Vec<Redirect> = Vec::new();
    let mut i: usize = 0;
    while i < r.len()
        invariant
            i <= r@.len(),
            out.deep_view() == r.deep_view().take(i as int),
        decreases r@.len() - i,
    {
        let x = Redirect { op: copy_chars(&r[i].op), target: copy_chars(&r[i].target) };
        let ghost b = out.deep_view();
        out.push(x);
        assert(out.deep_view() =~= b.push(r.deep_view()[i as int]));
        i = i + 1;
        assert(r.deep_view().take(i as int) =~= b.push(r.deep_view()[i - 1]));
    }
    assert(r.deep_view().take(i as int) =~= r.deep_view());
    out
}

/// The command that a privilege wrapper runs, when one is given.
pub fn strip_privilege_wrapper(name: &[char], command: &SimpleCommand) -> (r: Option<SimpleCommand>)
    ensures
        r.deep_view() == unwrap_privilege(name@, command.deep_view()),
{
    if chars_eq(name, &chars_of("su")) {
        let dash_c = chars_of("-c");
        match script_after_flag(&command.args, &dash_c) {
            Some(script) => {
                let mut args: Vec<Vec<char>> = Vec::new();
                args.push(copy_chars(&dash_c));
                args.push(copy_chars(&script));
                let mut raw: Vec<Vec<char>> = Vec::new();
                raw.push(chars_of("sh"));
                raw.push(copy_chars(&dash_c));
                raw.push(script);
                let r = SimpleCommand { name: chars_of("sh"), args, raw_words: raw, redirects: Vec::new() };
                assert(r.args.deep_view() =~= seq!["-c"@, r.raw_words@[2]@]);
                assert(r.raw_words.deep_view() =~= seq!["sh"@, "-c"@, r.raw_words@[2]@]);
                assert(r.redirects.deep_view() =~= Seq::<RedirectView>::empty());
                return Some(r);
            },
            None => {
                return None;
            },
        }
    }
    let n = command.args.len();
    let dashdash = chars_of("--");
    let dash = chars_of("-");
    let mut i: usize = 0;
    while i < n
        invariant_except_break
            n == command.args@.len(),
            i <= n,
            dashdash@ == "--"@,
            dash@ == "-"@,
            options_end(command.args.deep_view(), 0) == options_end(command.args.deep_view(), i as int),
        ensures
            i <= n,
            options_end(command.args.deep_view(), 0) == i as int,
        decreases n - i,
    {
        if chars_eq(&command.args[i], &dashdash) {
            i = i + 1;
            break;
        }
        if has_prefix(&command.args[i], &dash) {
            i = i + 1;
        } else {
            break;
        }
    }
    if i == n {
        return None;
    }
    let rest = words_tail(&command.args, i);
    let tail = words_tail(&rest, 1);
    let name = copy_chars(&rest[0]);
    Some(SimpleCommand { name, args: tail, raw_words: rest, redirects: copy_redirects(&command.redirects) })
}

} // verus!
