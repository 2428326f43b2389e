//! Reading the head of a client request: telling a `CONNECT` request apart
//! from a plain HTTP request, and finding the target of a `CONNECT`.

use vstd::prelude::*;
use vstd::string::*;

use crate::text::{chars_of, is_white_space, lemma_ascii_white_space, white_space};

verus! {

/// The text a `CONNECT` request starts with: the method and one space.
pub open spec fn connect_prefix() -> Seq<char> {
    seq!['C', 'O', 'N', 'N', 'E', 'C', 'T', ' ']
}

/// The method name of a tunnel request.
pub open spec fn connect_method() -> Seq<char> {
    seq!['C', 'O', 'N', 'N', 'E', 'C', 'T']
}

/// Whether the head of a request is a tunnel request: it starts with `CONNECT `.
pub open spec fn starts_as_connect(request: Seq<char>) -> bool {
    request.len() >= 8 && request.subrange(0, 8) == connect_prefix()
}

/// The position of the first line feed at or after `i`, or the length of `s`.
pub open spec fn line_feed_from(s: Seq<char>, i: int) -> int
    decreases s.len() - i,
{
    if i >= s.len() {
        s.len() as int
    } else if s[i] == '\n' {
        i
    } else {
        line_feed_from(s, i + 1)
    }
}

/// The first line of a non-empty text, as `str::lines` yields it: the text up
/// to the first line feed, without the carriage return of a `\r\n` ending.
pub open spec fn first_line(s: Seq<char>) -> Seq<char> {
    let e = line_feed_from(s, 0);
    if e < s.len() && e > 0 && s[e - 1] == '\r' {
        s.subrange(0, e - 1)
    } else {
        s.subrange(0, e)
    }
}

/// The words of `s` as `str::split_whitespace` yields them, where `cur` is a
/// word already begun before `s`.
pub open spec fn words_from(s: Seq<char>, cur: Seq<char>) -> Seq<Seq<char>>
    decreases s.len(),
{
    if s.len() == 0 {
        if cur.len() == 0 {
            seq![]
        } else {
            seq![cur]
        }
    } else if is_white_space(s[0]) {
        if cur.len() == 0 {
            words_from(s.drop_first(), cur)
        } else {
            seq![cur] + words_from(s.drop_first(), seq![])
        }
    } else {
        words_from(s.drop_first(), cur.push(s[0]))
    }
}

/// The maximal runs of non-white-space characters of `s`, in order.
pub open spec fn words(s: Seq<char>) -> Seq<Seq<char>> {
    words_from(s, seq![])
}

/// Why the head of a `CONNECT` request was refused.
#[derive(Clone, Copy, Debug, PartialEq, Eq, Structural)]
pub enum ConnectRequestError {
    /// The request has no line at all.
    Empty,
    /// The first line is not `CONNECT` followed by a target.
    Malformed,
}

/// The target of a tunnel request: the second word of its first line, when
/// the first word is `CONNECT`.
pub open spec fn connect_target(request: Seq<char>) -> Result<Seq<char>, ConnectRequestError> {
    if request.len() == 0 {
        Err(ConnectRequestError::Empty)
    } else {
        let w = words(first_line(request));
        if w.len() >= 2 && w[0] == connect_method() {
            Ok(w[1])
        } else {
            Err(ConnectRequestError::Malformed)
        }
    }
}

impl ConnectRequestError {
    /// The message the proxy reports for this error.
    pub fn message(&self) -> (m: &'static str)
        ensures
            *self == ConnectRequestError::Empty ==> m@ == "Invalid CONNECT request"@,
            *self == ConnectRequestError::Malformed ==> m@ == "Invalid CONNECT request format"@,
    {
        match self {
            ConnectRequestError::Empty => "Invalid CONNECT request",
            ConnectRequestError::Malformed => "Invalid CONNECT request format",
        }
    }
}

/// Whether the head of a client request is a tunnel request, which the proxy
/// answers itself at the TCP level; every other request goes to the HTTP path.
pub fn is_connect_request(request: &str) -> (b: bool)
    ensures
        b == starts_as_connect(request@),
{
    let cs = chars_of(request);
    if cs.len() < 8 {
        assert(!starts_as_connect(request@));
        return false;
    }
    let expected = ['C', 'O', 'N', 'N', 'E', 'C', 'T', ' '];
    assert(expected@ =~= connect_prefix());
    let mut i: usize = 0;
    while i < 8
        invariant
            cs@ == request@,
            cs@.len() >= 8,
            expected@ == connect_prefix(),
            i <= 8,
            forall|j: int| 0 <= j < i ==> cs@[j] == connect_prefix()[j],
        decreases 8 - i,
    {
        if cs[i] != expected[i] {
            assert(request@.subrange(0, 8)[i as int] != connect_prefix()[i as int]);
            assert(!starts_as_connect(request@));
            return false;
        }
        i = i + 1;
    }
    assert(request@.subrange(0, 8) =~= connect_prefix());
    true
}

/// One step of `words_from` over the character at `i`.
proof fn lemma_words_step(s: Seq<char>, i: int, cur: Seq<char>)
    requires
        0 <= i < s.len(),
    ensures
        is_white_space(s[i]) && cur.len() == 0 ==> words_from(s.skip(i), cur) == words_from(
            s.skip(i + 1),
            cur,
        ),
        is_white_space(s[i]) && cur.len() != 0 ==> words_from(s.skip(i), cur) == seq![cur]
            + words_from(s.skip(i + 1), seq![]),
        !is_white_space(s[i]) ==> words_from(s.skip(i), cur) == words_from(
            s.skip(i + 1),
            cur.push(s[i]),
        ),
{
    assert(s.skip(i).drop_first() =~= s.skip(i + 1));
    assert(s.skip(i)[0] == s[i]);
}

/// The first line feed at or after `i` is the one at or after `i + 1` when
/// `s[i]` is not a line feed.
proof fn lemma_line_feed_step(s: Seq<char>, i: int)
    requires
        0 <= i < s.len(),
        s[i] != '\n',
    ensures
        line_feed_from(s, i) == line_feed_from(s, i + 1),
{
}

/// `line_feed_from` stays within the text and points at a line feed unless it
/// reached the end.
proof fn lemma_line_feed_bounds(s: Seq<char>, i: int)
    requires
        0 <= i <= s.len(),
    ensures
        i <= line_feed_from(s, i) <= s.len(),
        line_feed_from(s, i) < s.len() ==> s[line_feed_from(s, i)] == '\n',
    decreases s.len() - i,
{
    if i < s.len() && s[i] != '\n' {
        lemma_line_feed_bounds(s, i + 1);
    }
}

/// The target of a tunnel request, as the proxy extracts it from the request
/// head: the first line is split at white space, its first word must be
/// `CONNECT`, and its second word is the target (`host:port`).
pub fn parse_connect_request(request: &str) -> (r: Result<String, ConnectRequestError>)
    ensures
        match connect_target(request@) {
            Ok(t) => r matches Ok(h) && h@ == t,
            Err(e) => r == Err::<String, ConnectRequestError>(e),
        },
{
    let cs = chars_of(request);
    let n = cs.len();
    if n == 0 {
        return Err(ConnectRequestError::Empty);
    }
    let ghost s = cs@;
    // Find the end of the first line.
    let mut e: usize = 0;
    while e < n && cs[e] != '\n'
        invariant
            cs@ == s,
            n == s.len(),
            e <= n,
            line_feed_from(s, 0) == line_feed_from(s, e as int),
        decreases n - e,
    {
        proof {
            lemma_line_feed_step(s, e as int);
        }
        e = e + 1;
    }
    assert(line_feed_from(s, 0) == e);
    let end: usize = if e < n && e > 0 && cs[e - 1] == '\r' {
        e - 1
    } else {
        e
    };
    let ghost line = s.subrange(0, end as int);
    assert(line == first_line(s));
    // Split the first line into words until two are complete.
    let mut starts: Vec<usize> = Vec::new();
    let mut stops: Vec<usize> = Vec::new();
    let mut in_word = false;
    let mut cur_start: usize = 0;
    let mut i: usize = 0;
    assert(line.skip(0) =~= line);
    assert(line.subrange(0, 0) =~= Seq::<char>::empty());
    assert(Seq::new(0, |k: int| line.subrange(starts@[k] as int, stops@[k] as int))
        + words_from(line, Seq::<char>::empty()) =~= words_from(line, Seq::<char>::empty()));
    while i < end && stops.len() < 2
        invariant
            cs@ == s,
            n == s.len(),
            end <= n,
            line == s.subrange(0, end as int),
            i <= end,
            starts@.len() == stops@.len(),
            stops@.len() <= 2,
            cur_start <= i,
            forall|k: int|
                0 <= k < stops@.len() ==> 0 <= #[trigger] starts@[k] < stops@[k] <= i,
            words(line) == Seq::new(
                stops@.len(),
                |k: int| line.subrange(starts@[k] as int, stops@[k] as int),
            ) + words_from(line.skip(i as int), line.subrange(cur_start as int, i as int)),
            in_word <==> cur_start < i,
        decreases end - i,
    {
        let ghost done = Seq::new(
            stops@.len(),
            |k: int| line.subrange(starts@[k] as int, stops@[k] as int),
        );
        let ghost cur = line.subrange(cur_start as int, i as int);
        proof {
            lemma_words_step(line, i as int, cur);
        }
        let c = cs[i];
        assert(c == line[i as int]);
        if white_space(c) {
            if in_word {
                let ghost old_starts = starts@;
                let ghost old_stops = stops@;
                starts.push(cur_start);
                stops.push(i);
                assert forall|k: int| 0 <= k < stops@.len() implies 0 <= #[trigger] starts@[k]
                    < stops@[k] <= i + 1 by {
                    if k < old_stops.len() {
                        assert(starts@[k] == old_starts[k] && stops@[k] == old_stops[k]);
                    }
                }
                assert(Seq::new(
                    stops@.len(),
                    |k: int| line.subrange(starts@[k] as int, stops@[k] as int),
                ) =~= done.push(cur));
                assert(done + (seq![cur] + words_from(line.skip(i + 1), seq![])) =~= done.push(
                    cur,
                ) + words_from(line.skip(i + 1), seq![]));
            } else {
                assert(cur =~= Seq::<char>::empty());
            }
            in_word = false;
            cur_start = i + 1;
            assert(line.subrange(cur_start as int, i + 1) =~= Seq::<char>::empty());
        } else {
            if !in_word {
                cur_start = i;
            }
            in_word = true;
            assert(cur.push(c) =~= line.subrange(cur_start as int, i + 1));
        }
        i = i + 1;
    }
    let ghost cur = line.subrange(cur_start as int, i as int);
    if stops.len() < 2 {
        // The whole line was read; the word under way, if any, is the last.
        assert(i == end);
        assert(line.skip(i as int) =~= Seq::<char>::empty());
        let ghost done = Seq::new(
            stops@.len(),
            |k: int| line.subrange(starts@[k] as int, stops@[k] as int),
        );
        if in_word {
            starts.push(cur_start);
            stops.push(i);
            assert(Seq::new(
                stops@.len(),
                |k: int| line.subrange(starts@[k] as int, stops@[k] as int),
            ) =~= done.push(cur));
        } else {
            assert(cur =~= Seq::<char>::empty());
            assert(done + words_from(line.skip(i as int), cur) =~= done);
        }
    }
    let ghost done = Seq::new(
        stops@.len(),
        |k: int| line.subrange(starts@[k] as int, stops@[k] as int),
    );
    assert(stops@.len() >= 2 ==> words(line).len() >= 2 && words(line)[0] == done[0] && words(
        line,
    )[1] == done[1]);
    if stops.len() < 2 {
        assert(words(line) =~= done);
        return Err(ConnectRequestError::Malformed);
    }
    assert(stops@[0] <= i && starts@[0] < stops@[0]);
    assert(stops@[1] <= i && starts@[1] < stops@[1]);
    let (a, b) = (starts[0], stops[0]);
    let method = ['C', 'O', 'N', 'N', 'E', 'C', 'T'];
    assert(method@ =~= connect_method());
    assert(done[0].len() == b - a);
    assert(connect_method().len() == 7);
    if b - a != 7 {
        return Err(ConnectRequestError::Malformed);
    }
    let mut j: usize = 0;
    while j < 7
        invariant
            cs@ == s,
            n == s.len(),
            a + 7 == b,
            b <= end <= n,
            line == s.subrange(0, end as int),
            method@ == connect_method(),
            request@ == s,
            s.len() > 0,
            first_line(s) == line,
            words(line).len() >= 2,
            words(line)[0] == line.subrange(a as int, b as int),
            j <= 7,
            forall|k: int| 0 <= k < j ==> s[a + k] == method@[k],
        decreases 7 - j,
    {
        if cs[a + j] != method[j] {
            assert(line[a + j] == s[a + j]);
            assert(line.subrange(a as int, b as int)[j as int] == line[a + j]);
            assert(line.subrange(a as int, b as int)[j as int] != connect_method()[j as int]);
            return Err(ConnectRequestError::Malformed);
        }
        j = j + 1;
    }
    assert forall|k: int| 0 <= k < 7 implies line.subrange(a as int, b as int)[k]
        == connect_method()[k] by {
        assert(line[a + k] == s[a + k]);
    }
    assert(line.subrange(a as int, b as int) =~= connect_method());
    let (c, d) = (starts[1], stops[1]);
    let target = request.substring_char(c, d);
    assert(target@ =~= line.subrange(c as int, d as int));
    Ok(String::from_str(target))
}

/// Reading a run of non-white-space characters continues the current word.
proof fn lemma_words_through_word(w: Seq<char>, x: Seq<char>, cur: Seq<char>)
    requires
        forall|k: int| 0 <= k < w.len() ==> !is_white_space(#[trigger] w[k]),
    ensures
        words_from(w + x, cur) == words_from(x, cur + w),
    decreases w.len(),
{
    if w.len() == 0 {
        assert(w + x =~= x);
        assert(cur + w =~= cur);
    } else {
        assert((w + x).drop_first() =~= w.drop_first() + x);
        assert((w + x)[0] == w[0]);
        lemma_words_through_word(w.drop_first(), x, cur.push(w[0]));
        assert(cur.push(w[0]) + w.drop_first() =~= cur + w);
    }
}

/// No line feed before `k` means the first line feed is at or after `k`.
proof fn lemma_line_feed_skip(s: Seq<char>, k: int)
    requires
        0 <= k <= s.len(),
        forall|j: int| 0 <= j < k ==> s[j] != '\n',
    ensures
        line_feed_from(s, 0) == line_feed_from(s, k),
    decreases k,
{
    if k > 0 {
        lemma_line_feed_skip(s, k - 1);
        lemma_line_feed_step(s, k - 1);
    }
}

/// The first line of `CONNECT <target><tail>` is `CONNECT <target>` followed
/// by a part of `tail` that is empty or starts with white space.
proof fn lemma_first_line_of_connect(target: Seq<char>, tail: Seq<char>) -> (rest: Seq<char>)
    requires
        target.len() > 0,
        forall|k: int| 0 <= k < target.len() ==> !is_white_space(#[trigger] target[k]),
        tail.len() == 0 || is_white_space(tail[0]),
    ensures
        first_line(connect_prefix() + target + tail) == connect_method() + (seq![' '] + (target
            + rest)),
        rest.len() == 0 || is_white_space(rest[0]),
{
    let s = connect_prefix() + target + tail;
    let h: int = 8 + target.len() as int;
    assert forall|j: int| 0 <= j < h implies s[j] != '\n' by {
        if j >= 8 {
            assert(s[j] == target[j - 8]);
        }
    }
    lemma_line_feed_skip(s, h);
    lemma_line_feed_bounds(s, h);
    assert(!is_white_space(s[h - 1])) by {
        assert(s[h - 1] == target[target.len() - 1]);
    }
    let line = first_line(s);
    assert(line.len() >= h);
    let rest = line.subrange(h, line.len() as int);
    assert(line =~= connect_method() + (seq![' '] + (target + rest)));
    assert(rest.len() == 0 || is_white_space(rest[0])) by {
        if rest.len() > 0 {
            assert(rest[0] == tail[0]);
        }
    }
    rest
}

/// The words of `CONNECT <target><rest>` start with `CONNECT` and `target`
/// when `rest` is empty or starts with white space.
proof fn lemma_words_of_connect_line(target: Seq<char>, rest: Seq<char>)
    requires
        target.len() > 0,
        forall|k: int| 0 <= k < target.len() ==> !is_white_space(#[trigger] target[k]),
        rest.len() == 0 || is_white_space(rest[0]),
    ensures
        words(connect_method() + (seq![' '] + (target + rest))).len() >= 2,
        words(connect_method() + (seq![' '] + (target + rest)))[0] == connect_method(),
        words(connect_method() + (seq![' '] + (target + rest)))[1] == target,
{
    let m = connect_method();
    let x = seq![' '] + (target + rest);
    assert forall|k: int| 0 <= k < m.len() implies !is_white_space(#[trigger] m[k]) by {}
    lemma_words_through_word(m, x, seq![]);
    assert(Seq::<char>::empty() + m =~= m);
    assert(x.drop_first() =~= target + rest);
    assert(words_from(x, m) == seq![m] + words_from(target + rest, seq![]));
    lemma_words_through_word(target, rest, seq![]);
    assert(Seq::<char>::empty() + target =~= target);
    let tail_words = if rest.len() == 0 {
        Seq::<Seq<char>>::empty()
    } else {
        words_from(rest.drop_first(), seq![])
    };
    assert(words_from(rest, target) == seq![target] + tail_words);
    assert(words(m + x) == seq![m] + (seq![target] + tail_words));
}

/// A request line `CONNECT <target>` names its target: the proxy takes the
/// request for a tunnel request and, whatever follows the target (the
/// protocol version, the header lines), reads back exactly `target`, provided the target holds no white space and is
/// separated from what follows by white space or the end of the text.
pub proof fn lemma_connect_line_names_target(target: Seq<char>, tail: Seq<char>)
    requires
        target.len() > 0,
        forall|k: int| 0 <= k < target.len() ==> !is_white_space(#[trigger] target[k]),
        tail.len() == 0 || is_white_space(tail[0]),
    ensures
        starts_as_connect(connect_prefix() + target + tail),
        connect_target(connect_prefix() + target + tail) == Ok::<Seq<char>, ConnectRequestError>(
            target,
        ),
{
    assert((connect_prefix() + target + tail).subrange(0, 8) =~= connect_prefix());
    let rest = lemma_first_line_of_connect(target, tail);
    lemma_words_of_connect_line(target, rest);
}

/// A character that may stand in a `host:port` target: an ASCII letter or
/// digit, or one of `.`, `:`, `-`, `_`, `[`, `]`.
pub open spec fn is_host_char(c: char) -> bool {
    ||| 'a' <= c <= 'z'
    ||| 'A' <= c <= 'Z'
    ||| '0' <= c <= '9'
    ||| c == '.'
    ||| c == ':'
    ||| c == '-'
    ||| c == '_'
    ||| c == '['
    ||| c == ']'
}

/// `CONNECT <host:port>` names its target: for every non-empty target made
/// of host characters, followed by the end of the text, a space, a tab or
/// the line ending, the request is a tunnel request and its target is read
/// back whole.
pub proof fn lemma_connect_names_host(target: Seq<char>, tail: Seq<char>)
    requires
        target.len() > 0,
        forall|k: int| 0 <= k < target.len() ==> is_host_char(#[trigger] target[k]),
        tail.len() == 0 || tail[0] == ' ' || tail[0] == '\t' || tail[0] == '\r' || tail[0]
            == '\n',
    ensures
        starts_as_connect(connect_prefix() + target + tail),
        connect_target(connect_prefix() + target + tail) == Ok::<Seq<char>, ConnectRequestError>(
            target,
        ),
{
    assert forall|k: int| 0 <= k < target.len() implies !is_white_space(#[trigger] target[k]) by {
        lemma_ascii_white_space(target[k]);
    }
    if tail.len() > 0 {
        lemma_ascii_white_space(tail[0]);
    }
    lemma_connect_line_names_target(target, tail);
}

/// Only `CONNECT` opens a tunnel: a request whose first word is any other
/// method (`GET`, `POST`, `PUT`, ...) followed by a space is never a tunnel
/// request, whatever follows; one that starts `CONNECT ` always is.
pub proof fn lemma_only_connect_tunnels(method: Seq<char>, rest: Seq<char>)
    requires
        forall|k: int| 0 <= k < method.len() ==> #[trigger] method[k] != ' ',
    ensures
        starts_as_connect(method + seq![' '] + rest) <==> method == connect_method(),
{
    let r = method + seq![' '] + rest;
    if starts_as_connect(r) {
        let p = connect_prefix();
        assert(r.subrange(0, 8) == p);
        if method.len() < 7 {
            let m = method.len() as int;
            assert(r[m] == ' ');
            assert(r.subrange(0, 8)[m] == r[m]);
        } else if method.len() > 7 {
            assert(r[7] == method[7]);
            assert(r.subrange(0, 8)[7] == r[7]);
        } else {
            assert forall|k: int| 0 <= k < 7 implies method[k] == connect_method()[k] by {
                assert(r.subrange(0, 8)[k] == r[k]);
                assert(r[k] == method[k]);
            }
            assert(method =~= connect_method());
        }
    }
    if method == connect_method() {
        assert(r.subrange(0, 8) =~= connect_prefix());
    }
}

/// A request head without a single space is never a tunnel request: the
/// method must be followed by a space.
pub proof fn lemma_tunnel_request_has_space(request: Seq<char>)
    requires
        forall|k: int| 0 <= k < request.len() ==> #[trigger] request[k] != ' ',
    ensures
        !starts_as_connect(request),
{
    if starts_as_connect(request) {
        assert(request.subrange(0, 8)[7] == request[7]);
    }
}

/// The end of a request head: `\r\n\r\n`, as bytes.
pub open spec fn blank_line() -> Seq<u8> {
    seq![13u8, 10u8, 13u8, 10u8]
}

/// Whether a blank line (`\r\n\r\n`) starts at `j` in `data`.
pub open spec fn blank_at(data: Seq<u8>, j: int) -> bool {
    0 <= j && j + 4 <= data.len() && data.subrange(j, j + 4) == blank_line()
}

/// The position just past the first `\r\n\r\n` at or after `i`, if any.
pub open spec fn head_end_from(data: Seq<u8>, i: int) -> Option<int>
    decreases data.len() - i,
{
    if i < 0 || i + 4 > data.len() {
        None
    } else if data.subrange(i, i + 4) == blank_line() {
        Some(i + 4)
    } else {
        head_end_from(data, i + 1)
    }
}

/// The length of the request head at the start of `data`: everything up to
/// and including the first blank line (`\r\n\r\n`), if `data` holds one.
pub open spec fn head_length(data: Seq<u8>) -> Option<int> {
    head_end_from(data, 0)
}

/// The length of the head of a tunnel request in the bytes received so far:
/// the proxy takes these bytes off the connection before it opens the
/// tunnel, so that the target receives only what the client sends after.
pub fn connect_head_len(data: &[u8]) -> (n: Option<usize>)
    ensures
        match head_length(data@) {
            Some(e) => n == Some(e as usize),
            None => n is None,
        },
{
    let len = data.len();
    let mut i: usize = 0;
    while i < len && len - i >= 4
        invariant
            len == data@.len(),
            i <= len,
            head_end_from(data@, 0) == head_end_from(data@, i as int),
        decreases len - i,
    {
        if data[i] == 13 && data[i + 1] == 10 && data[i + 2] == 13 && data[i + 3] == 10 {
            assert(data@.subrange(i as int, i + 4) =~= blank_line());
            return Some(i + 4);
        }
        assert(data@.subrange(i as int, i + 4) != blank_line()) by {
            if data@.subrange(i as int, i + 4) == blank_line() {
                assert(data@.subrange(i as int, i + 4)[0] == data@[i as int]);
                assert(data@.subrange(i as int, i + 4)[1] == data@[i + 1]);
                assert(data@.subrange(i as int, i + 4)[2] == data@[i + 2]);
                assert(data@.subrange(i as int, i + 4)[3] == data@[i + 3]);
            }
        }
        i = i + 1;
    }
    None
}

/// A request head that ends with its first blank line is taken off whole:
/// whatever the client sends after it, the head's length is the length of
/// the head, so the tunnel carries exactly the bytes that follow.
pub proof fn lemma_head_length_of_request(head: Seq<u8>, rest: Seq<u8>)
    requires
        head.len() >= 4,
        head.subrange(head.len() - 4, head.len() as int) == blank_line(),
        forall|j: int| 0 <= j && j + 4 < head.len() ==> !#[trigger] blank_at(head, j),
    ensures
        head_length(head + rest) == Some(head.len() as int),
{
    let d = head + rest;
    let k = head.len() - 4;
    assert forall|j: int| 0 <= j < k implies !#[trigger] blank_at(d, j) by {
        assert(!blank_at(head, j));
        assert(d.subrange(j, j + 4) =~= head.subrange(j, j + 4));
    }
    assert(d.subrange(k, k + 4) =~= head.subrange(k, k + 4));
    lemma_head_end_skip_exact(d, k);
}

/// When no blank line starts before `k`, the search from the start reaches `k`.
proof fn lemma_head_end_skip_exact(data: Seq<u8>, k: int)
    requires
        0 <= k,
        k + 4 <= data.len(),
        forall|j: int| 0 <= j < k ==> !#[trigger] blank_at(data, j),
    ensures
        head_end_from(data, 0) == head_end_from(data, k),
    decreases k,
{
    if k > 0 {
        lemma_head_end_skip_exact(data, k - 1);
        assert(!blank_at(data, k - 1));
    }
}

} // verus!
