//! Verified string utilities shared by the configuration and decompression
//! modules: path joining and placeholder substitution.
//!
//! Paths are modelled as plain strings with `/` as the separator; a path is
//! absolute exactly when it starts with `/`.

use vstd::prelude::*;

verus! {

use vstd::string::StrSliceExecFns;
use vstd::string::StringExecFns;

/// A path is absolute when its first character is the separator.
pub open spec fn is_absolute(p: Seq<char>) -> bool {
    p.len() > 0 && p[0] == '/'
}

/// Joining `base` with `p`: an absolute `p` stands alone; otherwise the two
/// are concatenated with exactly one separator between them.
pub open spec fn joined_path(base: Seq<char>, p: Seq<char>) -> Seq<char> {
    if is_absolute(p) {
        p
    } else if base.len() > 0 && base[base.len() - 1] == '/' {
        base + p
    } else {
        base + seq!['/'] + p
    }
}

/// Joins two path fragments as `joined_path` describes.
pub fn join_path(base: &str, p: &str) -> (r: String)
    ensures
        r@ == joined_path(base@, p@),
{
    let p_len = p.unicode_len();
    if p_len > 0 && p.get_char(0) == '/' {
        return p.to_owned();
    }
    let base_len = base.unicode_len();
    let mut out = base.to_owned();
    if !(base_len > 0 && base.get_char(base_len - 1) == '/') {
        out.append("/");
        proof {
            reveal_strlit("/");
            assert(out@ == base@ + seq!['/']);
        }
    }
    out.append(p);
    proof {
        if base_len > 0 && base@[base_len - 1] == '/' {
            assert(out@ == base@ + p@);
        } else {
            assert(out@ == (base@ + seq!['/']) + p@);
            assert((base@ + seq!['/']) + p@ == base@ + seq!['/'] + p@);
        }
    }
    out
}

/// `s` with every occurrence of `pat` replaced by `to`, scanning left to
/// right without overlap: at each position, a match of `pat` is emitted as
/// `to` and skipped, any other character is copied.
pub open spec fn replaced(s: Seq<char>, pat: Seq<char>, to: Seq<char>) -> Seq<char>
    decreases s.len(),
{
    if pat.len() == 0 || s.len() < pat.len() {
        s
    } else if s.subrange(0, pat.len() as int) == pat {
        to + replaced(s.subrange(pat.len() as int, s.len() as int), pat, to)
    } else {
        seq![s[0]] + replaced(s.subrange(1, s.len() as int), pat, to)
    }
}

/// True when `pat` occurs in `s` starting at character position `at`.
fn match_at(s: &str, s_len: usize, at: usize, pat: &str, pat_len: usize) -> (r: bool)
    requires
        s_len == s@.len(),
        pat_len == pat@.len(),
        at + pat_len <= s_len,
    ensures
        r == (s@.subrange(at as int, at + pat@.len()) == pat@),
{
    let mut k: usize = 0;
    while k < pat_len
        invariant
            s_len == s@.len(),
            pat_len == pat@.len(),
            at + pat_len <= s_len,
            0 <= k <= pat_len,
            forall|j: int| 0 <= j < k ==> s@[at + j] == pat@[j],
        decreases pat_len - k,
    {
        if s.get_char(at + k) != pat.get_char(k) {
            assert(s@.subrange(at as int, at + pat@.len())[k as int] != pat@[k as int]);
            return false;
        }
        k = k + 1;
    }
    assert(s@.subrange(at as int, at + pat@.len()) =~= pat@);
    true
}

/// Appends one character.
/// Relies on `String::push`, which appends the given character to the end.
#[verifier::external_body]
fn push_char(s: &mut String, c: char)
    ensures
        final(s)@ == old(s)@.push(c),
{
    s.push(c)
}

/// Replaces every occurrence of `pat` in `s` by `to`, as `replaced` describes.
pub fn replace_all(s: &str, pat: &str, to: &str) -> (r: String)
    requires
        pat@.len() >= 1,
    ensures
        r@ == replaced(s@, pat@, to@),
{
    let n = s.unicode_len();
    let m = pat.unicode_len();
    let mut out = String::new();
    let mut i: usize = 0;
    proof {
        assert(s@.subrange(0, n as int) =~= s@);
        assert(Seq::<char>::empty() + replaced(s@, pat@, to@) =~= replaced(s@, pat@, to@));
    }
    while i < n
        invariant
            n == s@.len(),
            m == pat@.len(),
            m >= 1,
            0 <= i <= n,
            out@ + replaced(s@.subrange(i as int, n as int), pat@, to@) == replaced(s@, pat@, to@),
        decreases n - i,
    {
        let ghost tail = s@.subrange(i as int, n as int);
        let ghost prev = out@;
        if m <= n - i && match_at(s, n, i, pat, m) {
            out.append(to);
            proof {
                let rest = s@.subrange(i + m as int, n as int);
                assert(tail.subrange(0, m as int) =~= s@.subrange(i as int, i + m as int));
                assert(tail.subrange(m as int, tail.len() as int) =~= rest);
                assert(replaced(tail, pat@, to@) == to@ + replaced(rest, pat@, to@));
                assert((prev + to@) + replaced(rest, pat@, to@) =~= prev + (to@ + replaced(
                    rest,
                    pat@,
                    to@,
                )));
            }
            i = i + m;
        } else {
            let c = s.get_char(i);
            push_char(&mut out, c);
            proof {
                let rest = s@.subrange(i + 1, n as int);
                assert(tail[0] == s@[i as int]);
                assert(tail.subrange(1, tail.len() as int) =~= rest);
                if tail.len() >= m {
                    assert(tail.subrange(0, m as int) =~= s@.subrange(i as int, i + m as int));
                    assert(replaced(tail, pat@, to@) == seq![tail[0]] + replaced(
                        rest,
                        pat@,
                        to@,
                    ));
                } else {
                    assert(replaced(tail, pat@, to@) == tail);
                    assert(replaced(rest, pat@, to@) == rest);
                    assert(tail =~= seq![tail[0]] + rest);
                }
                assert(out@ == prev.push(c));
                assert(prev.push(c) + replaced(rest, pat@, to@) =~= prev + (seq![c] + replaced(
                    rest,
                    pat@,
                    to@,
                )));
            }
            i = i + 1;
        }
    }
    proof {
        assert(s@.subrange(i as int, n as int) =~= Seq::<char>::empty());
        assert(replaced(Seq::<char>::empty(), pat@, to@) =~= Seq::<char>::empty());
        assert(out@ + Seq::<char>::empty() =~= out@);
    }
    out
}

} // verus!
