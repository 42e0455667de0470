use vstd::prelude::*;

use crate::error::ProxyError;

verus! {

/// ASCII case folding of one character; every other character is kept.
pub open spec fn fold_ascii(c: char) -> char {
    if 'A' <= c && c <= 'Z' {
        ((c as u32) + 32) as char
    } else {
        c
    }
}

/// The characters that `char::is_whitespace` accepts (Unicode White_Space).
pub open spec fn is_space(c: char) -> bool {
    ||| c == ' '
    ||| ('\t' <= c && c <= '\r')
    ||| c == '\u{85}'
    ||| c == '\u{A0}'
    ||| c == '\u{1680}'
    ||| ('\u{2000}' <= c && c <= '\u{200A}')
    ||| c == '\u{2028}'
    ||| c == '\u{2029}'
    ||| c == '\u{202F}'
    ||| c == '\u{205F}'
    ||| c == '\u{3000}'
}

/// Position `p` begins a line: the start of the text or just after a newline.
pub open spec fn is_line_start(s: Seq<char>, p: int) -> bool {
    p == 0 || (0 < p <= s.len() && s[p - 1] == '\n')
}

/// The text at `p` reads `host:` in any mix of letter cases.
pub open spec fn has_marker(s: Seq<char>, p: int) -> bool {
    &&& 0 <= p
    &&& p + 5 <= s.len()
    &&& fold_ascii(s[p]) == 'h'
    &&& fold_ascii(s[p + 1]) == 'o'
    &&& fold_ascii(s[p + 2]) == 's'
    &&& fold_ascii(s[p + 3]) == 't'
    &&& s[p + 4] == ':'
}

/// A line beginning at `p` declares the host.
pub open spec fn is_host_line(s: Seq<char>, p: int) -> bool {
    is_line_start(s, p) && has_marker(s, p)
}

/// `p` is the first host line of the request.
pub open spec fn is_first_host_line(s: Seq<char>, p: int) -> bool {
    &&& is_host_line(s, p)
    &&& forall|q: int| 0 <= q < p ==> !is_host_line(s, q)
}

/// Index of the first newline at or after `i`, or the length if there is none.
pub open spec fn line_end(s: Seq<char>, i: int) -> int
    decreases s.len() - i,
{
    if i < 0 || i >= s.len() {
        s.len() as int
    } else if s[i] == '\n' {
        i
    } else {
        line_end(s, i + 1)
    }
}

/// Drops the leading whitespace.
pub open spec fn trim_start(t: Seq<char>) -> Seq<char>
    decreases t.len(),
{
    if t.len() > 0 && is_space(t[0]) {
        trim_start(t.drop_first())
    } else {
        t
    }
}

/// Drops the trailing whitespace.
pub open spec fn trim_end(t: Seq<char>) -> Seq<char>
    decreases t.len(),
{
    if t.len() > 0 && is_space(t.last()) {
        trim_end(t.drop_last())
    } else {
        t
    }
}

pub open spec fn trim(t: Seq<char>) -> Seq<char> {
    trim_end(trim_start(t))
}

/// The value declared by the host line at `p`: what follows the marker up to
/// the end of the line, without surrounding whitespace.
pub open spec fn host_value(s: Seq<char>, p: int) -> Seq<char> {
    trim(s.subrange(p + 5, line_end(s, p + 5)))
}

pub open spec fn has_host_line(s: Seq<char>) -> bool {
    exists|p: int| is_host_line(s, p)
}

/// The host a request declares, if any: the value of its first host line.
pub open spec fn host_of(s: Seq<char>) -> Option<Seq<char>> {
    if has_host_line(s) {
        Some(host_value(s, choose|p: int| is_first_host_line(s, p)))
    } else {
        None
    }
}

/// Two first host lines of one text are the same line.
proof fn lemma_first_unique(s: Seq<char>, p: int, q: int)
    requires
        is_first_host_line(s, p),
        is_first_host_line(s, q),
    ensures
        p == q,
{
    if p < q {
        assert(!is_host_line(s, p));
    } else if q < p {
        assert(!is_host_line(s, q));
    }
}

/// Properties of `line_end` that the scanner relies on.
proof fn lemma_line_end(s: Seq<char>, i: int)
    requires
        0 <= i <= s.len(),
    ensures
        i <= line_end(s, i) <= s.len(),
        forall|k: int| i <= k < line_end(s, i) ==> s[k] != '\n',
        line_end(s, i) < s.len() ==> s[line_end(s, i)] == '\n',
    decreases s.len() - i,
{
    if i < s.len() && s[i] != '\n' {
        lemma_line_end(s, i + 1);
    }
}

/// Within text that ends with a newline, the end of a line does not depend
/// on what follows the text.
proof fn lemma_line_end_append(r: Seq<char>, t: Seq<char>, i: int)
    requires
        0 <= i < r.len(),
        r.last() == '\n',
    ensures
        line_end(r + t, i) == line_end(r, i),
        line_end(r, i) < r.len(),
    decreases r.len() - i,
{
    if r[i] != '\n' {
        assert((r + t)[i] == r[i]);
        lemma_line_end_append(r, t, i + 1);
    } else {
        assert((r + t)[i] == r[i]);
    }
}

/// Text appended after a request's final newline never changes the host it
/// declares, even where the appended text holds further `Host:` lines.
pub proof fn lemma_host_ignores_appended_lines(r: Seq<char>, t: Seq<char>)
    requires
        r.len() > 0,
        r.last() == '\n',
        has_host_line(r),
    ensures
        host_of(r + t) == host_of(r),
{
    let u = r + t;
    let q0 = choose|q: int| is_host_line(r, q);
    lemma_first_exists(r, q0);
    let p = choose|p: int| is_first_host_line(r, p);
    assert(p + 4 < r.len() - 1) by {
        if p + 4 >= r.len() - 1 {
            assert(r[r.len() - 1] == '\n');
        }
    }
    assert forall|k: int| 0 <= k < r.len() implies #[trigger] u[k] == r[k] by {}
    assert(is_host_line(u, p));
    assert forall|q: int| 0 <= q < p implies !is_host_line(u, q) by {
        if is_host_line(u, q) {
            if q + 5 <= r.len() {
                assert(is_host_line(r, q));
            } else {
                let k = r.len() - 1;
                assert(u[k] == '\n');
                assert(q <= k < q + 5);
                assert(k == q || k == q + 1 || k == q + 2 || k == q + 3 || k == q + 4);
            }
        }
    }
    assert(is_first_host_line(u, p));
    lemma_line_end_append(r, t, p + 5);
    lemma_line_end(r, p + 5);
    assert(u.subrange(p + 5, line_end(u, p + 5)) =~= r.subrange(p + 5, line_end(r, p + 5)));
    let pu = choose|q: int| is_first_host_line(u, q);
    lemma_first_unique(u, p, pu);
}

/// Text with a host line has a first one.
proof fn lemma_first_exists(s: Seq<char>, q: int)
    requires
        is_host_line(s, q),
    ensures
        exists|p: int| is_first_host_line(s, p),
    decreases q,
{
    if exists|k: int| 0 <= k < q && is_host_line(s, k) {
        let k = choose|k: int| 0 <= k < q && is_host_line(s, k);
        lemma_first_exists(s, k);
    } else {
        assert(is_first_host_line(s, q));
    }
}

/// Whether `p` begins a host line, read from the text one character at a time.
fn host_line_at(request: &str, n: usize, p: usize) -> (r: bool)
    requires
        n == request@.len(),
        p < n,
    ensures
        r == is_host_line(request@, p as int),
{
    if p > 0 && request.get_char(p - 1) != '\n' {
        return false;
    }
    if n - p < 5 {
        return false;
    }
    let c0 = request.get_char(p);
    let c1 = request.get_char(p + 1);
    let c2 = request.get_char(p + 2);
    let c3 = request.get_char(p + 3);
    let c4 = request.get_char(p + 4);
    (c0 == 'h' || c0 == 'H') && (c1 == 'o' || c1 == 'O') && (c2 == 's' || c2 == 'S') && (c3 == 't'
        || c3 == 'T') && c4 == ':'
}

fn space(c: char) -> (r: bool)
    ensures
        r == is_space(c),
{
    c == ' ' || ('\t' <= c && c <= '\r') || c == '\u{85}' || c == '\u{A0}' || c == '\u{1680}' || (
    '\u{2000}' <= c && c <= '\u{200A}') || c == '\u{2028}' || c == '\u{2029}' || c == '\u{202F}'
        || c == '\u{205F}' || c == '\u{3000}'
}

/// Finds the destination host of a raw request: the trimmed value of the first
/// line that starts with `Host:`, in any letter case. Later `Host:` lines are
/// ignored; the value is not checked to be a well-formed host name.
pub fn extract_host(request: &str) -> (r: Result<String, ProxyError>)
    ensures
        match r {
            Ok(h) => exists|p: int| is_first_host_line(request@, p) && h@ == host_value(request@, p),
            Err(e) => e == ProxyError::MissingHost && !has_host_line(request@),
        },
        match r {
            Ok(h) => host_of(request@) == Some(h@),
            Err(_) => host_of(request@) is None,
        },
{
    let ghost s = request@;
    let n = request.unicode_len();
    let mut p: usize = 0;
    while p < n
        invariant
            n == s.len(),
            s == request@,
            p <= n,
            forall|q: int| 0 <= q < p ==> !is_host_line(s, q),
        decreases n - p,
    {
        if host_line_at(request, n, p) {
            // the value runs from after the marker to the end of the line
            let start = p + 5;
            let mut e: usize = start;
            proof {
                lemma_line_end(s, start as int);
            }
            while e < n && request.get_char(e) != '\n'
                invariant
                    n == s.len(),
                    s == request@,
                    start <= e <= n,
                    line_end(s, e as int) == line_end(s, start as int),
                decreases n - e,
            {
                e = e + 1;
            }
            assert(line_end(s, e as int) == e);
            let mut a: usize = start;
            while a < e && space(request.get_char(a))
                invariant
                    n == s.len(),
                    s == request@,
                    start <= a <= e <= n,
                    trim_start(s.subrange(start as int, e as int)) == trim_start(
                        s.subrange(a as int, e as int),
                    ),
                decreases e - a,
            {
                assert(s.subrange(a as int, e as int).drop_first() =~= s.subrange(
                    a + 1,
                    e as int,
                ));
                a = a + 1;
            }
            assert(trim_start(s.subrange(a as int, e as int)) == s.subrange(a as int, e as int));
            let mut b: usize = e;
            while b > a && space(request.get_char(b - 1))
                invariant
                    n == s.len(),
                    s == request@,
                    a <= b <= e <= n,
                    trim_end(s.subrange(a as int, e as int)) == trim_end(
                        s.subrange(a as int, b as int),
                    ),
                decreases b - a,
            {
                assert(s.subrange(a as int, b as int).drop_last() =~= s.subrange(
                    a as int,
                    b - 1,
                ));
                b = b - 1;
            }
            assert(trim_end(s.subrange(a as int, b as int)) == s.subrange(a as int, b as int));
            let value = request.substring_char(a, b).to_owned();
            assert(is_first_host_line(s, p as int));
            assert(value@ == host_value(s, p as int));
            proof {
                let c = choose|q: int| is_first_host_line(s, q);
                lemma_first_unique(s, p as int, c);
            }
            return Ok(value);
        }
        p = p + 1;
    }
    proof {
        assert forall|q: int| !is_host_line(s, q) by {
            if 0 <= q < n {
            } else if q >= n {
                assert(!has_marker(s, q));
            }
        }
    }
    Err(ProxyError::MissingHost)
}

} // verus!
