//! The local control API of a running daemon: a token-guarded, HTTP/1.0-shaped exchange on
//! loopback. This module reads requests and frames replies; sockets and files are the
//! application's work.

use crate::report::{dec, decimal};
use crate::text::{
    char_is_whitespace, chars_of, find_char, find_char_in, has_substring, has_substring_chars, is_ws, occurs_at, push_chars,
    push_str, split_char, split_chars, string_of, sub_chars, trim, trim_chars,
};
use vstd::prelude::*;

verus! {

pub const CONTROL_FILE: &'static str = "control.json";

pub const DAEMON_FILE: &'static str = "daemon.json";

/// Where a running daemon's control API listens, and the token it expects.
#[derive(Debug, Clone)]
pub struct ControlInfo {
    pub listen: String,
    pub token: String,
    pub pid: u32,
    pub started_at: u64,
    pub unix_socket: Option<String>,
}

/// The lines of a text as `str::lines` yields them, before each loses a trailing `\r`: the
/// pieces between line feeds, without the empty piece after a final line feed.
pub open spec fn raw_lines(s: Seq<char>) -> Seq<Seq<char>> {
    let p = split_char(s, '\n');
    if s.len() == 0 || s.last() == '\n' {
        p.drop_last()
    } else {
        p
    }
}

/// A request carries the token: as `Bearer <token>` anywhere, or as a line of its own
/// (surrounding white space aside).
pub open spec fn authorized_spec(req: Seq<char>, token: Seq<char>) -> bool {
    ||| has_substring(req, "Bearer "@ + token)
    ||| exists|k: int| 0 <= k < raw_lines(req).len() && trim(#[trigger] raw_lines(req)[k]) == token
}

/// Whether a request carries the token.
pub fn authorized(req: &str, token: &str) -> (b: bool)
    ensures
        b == authorized_spec(req@, token@),
{
    let r = chars_of(req);
    let mut pat = chars_of("Bearer ");
    let t = chars_of(token);
    push_chars(&mut pat, &t);
    if has_substring_chars(&r, &pat) {
        return true;
    }
    let pieces = split_chars(&r, '\n');
    let n = if r.len() == 0 || r[r.len() - 1] == '\n' {
        pieces.len() - 1
    } else {
        pieces.len()
    };
    proof {
        crate::text::lemma_split_char_nonempty(r@, '\n');
    }
    let ghost lines = raw_lines(r@);
    assert(lines.len() == n);
    let mut k: usize = 0;
    while k < n
        invariant
            k <= n == lines.len(),
            lines == raw_lines(req@),
            t@ == token@,
            n <= pieces@.len(),
            pieces@.len() == split_char(r@, '\n').len(),
            forall|q: int| 0 <= q < pieces@.len() ==> (#[trigger] pieces@[q])@ == split_char(r@, '\n')[q],
            forall|q: int| 0 <= q < n ==> lines[q] == split_char(r@, '\n')[q],
            forall|q: int| 0 <= q < k ==> trim(#[trigger] lines[q]) != token@,
        decreases n - k,
    {
        let line = trim_chars(&pieces[k]);
        if line.len() == t.len() {
            let mut same = true;
            let mut j: usize = 0;
            while j < line.len()
                invariant
                    j <= line@.len() == t@.len(),
                    same <==> forall|q: int| 0 <= q < j ==> line@[q] == t@[q],
                decreases line@.len() - j,
            {
                if line[j] != t[j] {
                    same = false;
                }
                j += 1;
            }
            if same {
                assert(line@ =~= t@);
                assert(trim(lines[k as int]) == token@);
                return true;
            }
        }
        assert(trim(lines[k as int]) != token@);
        k += 1;
    }
    false
}

/// The first position at or after `i` that is not white space (`s.len()` if none).
pub open spec fn skip_ws(s: Seq<char>, i: nat) -> nat
    decreases s.len() - i,
{
    if i >= s.len() {
        s.len()
    } else if is_ws(s[i as int]) {
        skip_ws(s, i + 1)
    } else {
        i
    }
}

/// The first position at or after `i` that is white space (`s.len()` if none).
pub open spec fn skip_word(s: Seq<char>, i: nat) -> nat
    decreases s.len() - i,
{
    if i >= s.len() {
        s.len()
    } else if is_ws(s[i as int]) {
        i
    } else {
        skip_word(s, i + 1)
    }
}

proof fn lemma_skip_bounds(s: Seq<char>, i: nat)
    requires
        i <= s.len(),
    ensures
        i <= skip_ws(s, i) <= s.len(),
        i <= skip_word(s, i) <= s.len(),
        skip_ws(s, i) < s.len() ==> !is_ws(s[skip_ws(s, i) as int]),
    decreases s.len() - i,
{
    if i < s.len() {
        lemma_skip_bounds(s, i + 1);
    }
}

/// The second white-space-separated word of a line (`str::split_whitespace().nth(1)`), or
/// `/` when there is none.
pub open spec fn second_word(line: Seq<char>) -> Seq<char> {
    let a = skip_ws(line, 0);
    let b = skip_word(line, a);
    let c = skip_ws(line, b);
    if c >= line.len() {
        "/"@
    } else {
        line.subrange(c as int, skip_word(line, c) as int)
    }
}

/// The first line of a text: up to its first line feed.
pub open spec fn first_line(s: Seq<char>) -> Seq<char> {
    match find_char(s, '\n') {
        Some(i) => s.take(i),
        None => s,
    }
}

/// The path a request asks for: the second word of its first line.
pub open spec fn request_path_spec(req: Seq<char>) -> Seq<char> {
    second_word(first_line(req))
}

fn skip_ws_exec(s: &[char], i: usize) -> (j: usize)
    requires
        i <= s@.len(),
    ensures
        j == skip_ws(s@, i as nat),
{
    let mut j = i;
    while j < s.len() && char_is_whitespace(s[j])
        invariant
            i <= j <= s@.len(),
            skip_ws(s@, i as nat) == skip_ws(s@, j as nat),
        decreases s@.len() - j,
    {
        j += 1;
    }
    j
}

fn skip_word_exec(s: &[char], i: usize) -> (j: usize)
    requires
        i <= s@.len(),
    ensures
        j == skip_word(s@, i as nat),
{
    let mut j = i;
    while j < s.len() && !char_is_whitespace(s[j])
        invariant
            i <= j <= s@.len(),
            skip_word(s@, i as nat) == skip_word(s@, j as nat),
        decreases s@.len() - j,
    {
        j += 1;
    }
    j
}

/// The path a control request asks for (see `request_path_spec`).
pub fn request_path(req: &str) -> (p: String)
    ensures
        p@ == request_path_spec(req@),
{
    let r = chars_of(req);
    let line_v = match find_char_in(&r, '\n') {
        Some(i) => sub_chars(&r, 0, i),
        None => sub_chars(&r, 0, r.len()),
    };
    assert(line_v@ =~= first_line(req@));
    let line = line_v.as_slice();
    let ghost l = line@;
    let a = skip_ws_exec(line, 0);
    proof {
        lemma_skip_bounds(l, 0);
    }
    let b = skip_word_exec(line, a);
    proof {
        lemma_skip_bounds(l, a as nat);
    }
    let c = skip_ws_exec(line, b);
    proof {
        lemma_skip_bounds(l, b as nat);
    }
    if c >= line.len() {
        return crate::text::owned("/");
    }
    let d = skip_word_exec(line, c);
    proof {
        lemma_skip_bounds(l, c as nat);
    }
    let w = sub_chars(line, c, d);
    string_of(&w)
}

/// A request for the shutdown endpoint.
pub open spec fn is_shutdown_spec(path: Seq<char>) -> bool {
    path.len() >= 12 && path.take(12) == "/v1/shutdown"@
}

/// Whether a path asks the daemon to stop.
pub fn is_shutdown(path: &str) -> (b: bool)
    ensures
        b == is_shutdown_spec(path@),
{
    let p = chars_of(path);
    let pre = chars_of("/v1/shutdown");
    proof {
        reveal_strlit("/v1/shutdown");
    }
    if p.len() < 12 {
        return false;
    }
    let head = sub_chars(&p, 0, 12);
    assert(head@ =~= p@.take(12));
    crate::text::chars_eq(&head, &pre)
}

/// The head of a control reply of `len` body bytes. The reason phrase is always `OK`.
pub open spec fn http_head_spec(code: u16, len: u64) -> Seq<char> {
    "HTTP/1.0 "@ + dec(code as nat) + " OK\r\nContent-Type: application/json\r\nContent-Length: "@
        + dec(len as nat) + "\r\n\r\n"@
}

/// Frames the head of a control reply.
pub fn http_head(code: u16, len: u64) -> (s: String)
    ensures
        s@ == http_head_spec(code, len),
{
    let mut out: Vec<char> = Vec::new();
    push_str(&mut out, "HTTP/1.0 ");
    let c = decimal(code as u64);
    push_chars(&mut out, &c);
    push_str(&mut out, " OK\r\nContent-Type: application/json\r\nContent-Length: ");
    let l = decimal(len);
    push_chars(&mut out, &l);
    push_str(&mut out, "\r\n\r\n");
    string_of(&out)
}

/// The request a client sends for `path` with `token`.
pub open spec fn control_request_spec(path: Seq<char>, token: Seq<char>) -> Seq<char> {
    "GET "@ + path + " HTTP/1.0\r\nAuthorization: Bearer "@ + token + "\r\n\r\n"@
}

/// Builds the request a client sends to the control API.
pub fn control_request(path: &str, token: &str) -> (s: String)
    ensures
        s@ == control_request_spec(path@, token@),
{
    let mut out: Vec<char> = Vec::new();
    push_str(&mut out, "GET ");
    push_str(&mut out, path);
    push_str(&mut out, " HTTP/1.0\r\nAuthorization: Bearer ");
    push_str(&mut out, token);
    push_str(&mut out, "\r\n\r\n");
    string_of(&out)
}

/// The first occurrence of `p` in `s` at or after `i`.
pub open spec fn find_from(s: Seq<char>, p: Seq<char>, i: nat) -> Option<nat>
    decreases s.len() + 1 - i,
{
    if i + p.len() > s.len() {
        None
    } else if occurs_at(s, p, i as int) {
        Some(i)
    } else {
        find_from(s, p, i + 1)
    }
}

proof fn lemma_find_from(s: Seq<char>, p: Seq<char>, i: nat)
    ensures
        find_from(s, p, i) matches Some(k) ==> i <= k && k + p.len() <= s.len() && occurs_at(s, p, k as int),
    decreases s.len() + 1 - i,
{
    if i + p.len() <= s.len() && !occurs_at(s, p, i as int) {
        lemma_find_from(s, p, i + 1);
    }
}

/// The body of a control reply: the text between the first blank line (`\r\n\r\n`) and the
/// next one (or the end); `{}` when there is no blank line.
pub open spec fn reply_body_spec(text: Seq<char>) -> Seq<char> {
    let sep = "\r\n\r\n"@;
    match find_from(text, sep, 0) {
        None => "{}"@,
        Some(i) => {
            let rest = text.skip((i + sep.len()) as int);
            match find_from(rest, sep, 0) {
                None => rest,
                Some(j) => rest.take(j as int),
            }
        },
    }
}

fn find_from_exec(s: &[char], p: &[char], i: usize) -> (r: Option<usize>)
    requires
        i <= s@.len(),
    ensures
        r matches Some(k) ==> find_from(s@, p@, i as nat) == Some(k as nat) && k + p@.len() <= s@.len(),
        r is None ==> find_from(s@, p@, i as nat) is None,
{
    if p.len() > s.len() {
        return None;
    }
    let n = s.len();
    let last = n - p.len();
    let mut k = i;
    while k <= last
        invariant
            i <= k,
            n == s@.len(),
            last == s@.len() - p@.len(),
            find_from(s@, p@, i as nat) == find_from(s@, p@, k as nat),
        decreases s@.len() + 1 - k,
    {
        let mut j: usize = 0;
        let mut hit = true;
        while j < p.len()
            invariant
                j <= p@.len(),
                n == s@.len(),
                k + p@.len() <= s@.len(),
                hit <==> forall|q: int| 0 <= q < j ==> s@[k + q] == p@[q],
            decreases p@.len() - j,
        {
            if s[k + j] != p[j] {
                hit = false;
            }
            j += 1;
        }
        if hit {
            assert(s@.subrange(k as int, k + p@.len()) =~= p@);
            return Some(k);
        }
        assert(!occurs_at(s@, p@, k as int)) by {
            if occurs_at(s@, p@, k as int) {
                assert forall|q: int| 0 <= q < p@.len() implies s@[k + q] == p@[q] by {
                    assert(s@.subrange(k as int, k + p@.len())[q] == s@[k + q]);
                }
            }
        }
        k += 1;
    }
    None
}

/// Extracts the body of a control reply (see `reply_body_spec`).
pub fn reply_body(text: &str) -> (b: String)
    ensures
        b@ == reply_body_spec(text@),
{
    let t = chars_of(text);
    let sep = chars_of("\r\n\r\n");
    proof {
        reveal_strlit("\r\n\r\n");
    }
    match find_from_exec(&t, &sep, 0) {
        None => crate::text::owned("{}"),
        Some(i) => {
            proof {
                lemma_find_from(t@, sep@, 0);
            }
            assert(sep@.len() == 4);
            let tn = t.len();
            assert(i + 4 <= tn);
            let rest = sub_chars(&t, i + 4, tn);
            assert(rest@ =~= t@.skip(i + 4));
            match find_from_exec(&rest, &sep, 0) {
                None => string_of(&rest),
                Some(j) => {
                    proof {
                        lemma_find_from(rest@, sep@, 0);
                    }
                    let body = sub_chars(&rest, 0, j);
                    assert(body@ =~= rest@.take(j as int));
                    string_of(&body)
                },
            }
        },
    }
}

/// Where a stored Drop's transfer stands.
#[derive(Debug, Clone, Copy, PartialEq, Eq, Structural)]
pub enum TransferState {
    Completed,
    Active,
    Queued,
}

/// A Drop that can be rebuilt is completed; one with some chunks is active; others queued.
pub fn transfer_state(complete: bool, present: usize) -> (s: TransferState)
    ensures
        s == (if complete {
            TransferState::Completed
        } else if present > 0 {
            TransferState::Active
        } else {
            TransferState::Queued
        }),
{
    if complete {
        TransferState::Completed
    } else if present > 0 {
        TransferState::Active
    } else {
        TransferState::Queued
    }
}

/// How many chunks are present.
pub open spec fn present_count(mask: Seq<bool>) -> nat
    decreases mask.len(),
{
    if mask.len() == 0 {
        0
    } else {
        present_count(mask.drop_last()) + if mask.last() {
            1nat
        } else {
            0nat
        }
    }
}

/// The chunks present and the total shown for a transfer (a total of at least one).
pub fn chunk_progress(mask: &[bool]) -> (r: (usize, usize))
    ensures
        r.0 == present_count(mask@),
        r.1 == if mask@.len() == 0 { 1 } else { mask@.len() },
{
    let mut n: usize = 0;
    let mut i: usize = 0;
    while i < mask.len()
        invariant
            i <= mask@.len(),
            n == present_count(mask@.take(i as int)),
            n <= i,
        decreases mask@.len() - i,
    {
        assert(mask@.take(i + 1).drop_last() =~= mask@.take(i as int));
        if mask[i] {
            n += 1;
        }
        i += 1;
    }
    assert(mask@.take(mask@.len() as int) =~= mask@);
    (n, if mask.len() == 0 { 1 } else { mask.len() })
}

/// A request the client builds with a token is accepted by a daemon holding that token.
pub proof fn lemma_request_authorized(path: Seq<char>, token: Seq<char>)
    ensures
        authorized_spec(control_request_spec(path, token), token),
{
    reveal_strlit("GET ");
    reveal_strlit(" HTTP/1.0\r\nAuthorization: Bearer ");
    reveal_strlit("Bearer ");
    reveal_strlit("\r\n\r\n");
    let req = control_request_spec(path, token);
    let pat = "Bearer "@ + token;
    let i: int = 4 + path.len() as int + 26;
    assert(req.subrange(i, i + pat.len()) =~= pat);
    assert(occurs_at(req, pat, i));
}

proof fn lemma_skip_word_run(s: Seq<char>, i: nat, j: nat)
    requires
        i <= j <= s.len(),
        forall|k: int| i <= k < j ==> !is_ws(#[trigger] s[k]),
        j == s.len() || is_ws(s[j as int]),
    ensures
        skip_word(s, i) == j,
    decreases j - i,
{
    if i < j {
        lemma_skip_word_run(s, i + 1, j);
    }
}

/// The daemon reads back the path a client asked for, when the path is one word.
pub proof fn lemma_request_path(path: Seq<char>, token: Seq<char>)
    requires
        path.len() > 0,
        forall|k: int| 0 <= k < path.len() ==> !is_ws(#[trigger] path[k]),
    ensures
        request_path_spec(control_request_spec(path, token)) == path,
{
    reveal_strlit("GET ");
    reveal_strlit(" HTTP/1.0\r\nAuthorization: Bearer ");
    reveal_strlit("\r\n\r\n");
    let req = control_request_spec(path, token);
    let a = "GET "@ + path + " HTTP/1.0\r"@;
    reveal_strlit(" HTTP/1.0\r");
    let b = "Authorization: Bearer "@ + token + "\r\n\r\n"@;
    reveal_strlit("Authorization: Bearer ");
    assert(req =~= a + seq!['\n'] + b);
    assert forall|k: int| 0 <= k < a.len() implies a[k] != '\n' by {
        if 4 <= k < 4 + path.len() {
            assert(a[k] == path[k - 4]);
            assert(!is_ws(path[k - 4]));
        }
    }
    crate::text::lemma_find_char_concat(a, b, '\n');
    assert(first_line(req) =~= a);
    let l = a;
    assert(!is_ws(l[0]));
    assert(skip_ws(l, 0) == 0);
    lemma_skip_word_run(l, 0, 3);
    assert(is_ws(l[3]));
    assert(skip_ws(l, 3) == skip_ws(l, 4));
    assert(l[4] == path[0]);
    assert(skip_ws(l, 4) == 4);
    assert forall|k: int| 4 <= k < 4 + path.len() implies !is_ws(#[trigger] l[k]) by {
        assert(l[k] == path[k - 4]);
    }
    assert(l[4 + path.len() as int] == ' ');
    lemma_skip_word_run(l, 4, 4 + path.len());
    assert(l.subrange(4, 4 + path.len() as int) =~= path);
}

} // verus!
