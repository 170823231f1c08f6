//! Character-level helpers: string equality and prefix tests, newline
//! counting, and the line cap that bounds every text preview by the
//! viewport's row budget.

use vstd::prelude::*;

verus! {

/// How many times `c` occurs in `s`.
pub open spec fn count_char(s: Seq<char>, c: char) -> nat
    decreases s.len(),
{
    if s.len() == 0 {
        0
    } else {
        count_char(s.drop_first(), c) + if s[0] == c {
            1nat
        } else {
            0nat
        }
    }
}

/// `p` is a prefix of `s`.
pub open spec fn has_prefix(s: Seq<char>, p: Seq<char>) -> bool {
    p.len() <= s.len() && s.subrange(0, p.len() as int) == p
}

/// Character-wise string equality.
pub fn str_eq(a: &str, b: &str) -> (r: bool)
    ensures
        r == (a@ == b@),
{
    let alen = a.unicode_len();
    if alen != b.unicode_len() {
        return false;
    }
    let mut i: usize = 0;
    while i < alen
        invariant
            alen == a@.len() == b@.len(),
            i <= alen,
            forall|j: int| 0 <= j < i ==> a@[j] == b@[j],
        decreases alen - i,
    {
        if a.get_char(i) != b.get_char(i) {
            return false;
        }
        i = i + 1;
    }
    proof {
        assert(a@ =~= b@);
    }
    true
}

/// Whether `s` starts with `p`, character-wise.
pub fn str_starts_with(s: &str, p: &str) -> (r: bool)
    ensures
        r == has_prefix(s@, p@),
{
    let plen = p.unicode_len();
    if plen > s.unicode_len() {
        return false;
    }
    let mut i: usize = 0;
    while i < plen
        invariant
            plen == p@.len() <= s@.len(),
            i <= plen,
            forall|j: int| 0 <= j < i ==> s@[j] == p@[j],
        decreases plen - i,
    {
        if s.get_char(i) != p.get_char(i) {
            proof {
                if has_prefix(s@, p@) {
                    assert(s@.subrange(0, plen as int)[i as int] == p@[i as int]);
                }
            }
            return false;
        }
        i = i + 1;
    }
    proof {
        assert(s@.subrange(0, plen as int) =~= p@);
    }
    true
}

/// Relies on String::push: appends the single character `c`.
#[verifier::external_body]
pub(crate) fn push_char(s: &mut String, c: char)
    ensures
        final(s)@ == old(s)@.push(c),
{
    s.push(c);
}

/// The first `h` lines of `t`, where `t` carries no trailing newline:
/// everything before the `h`-th newline, the whole of `t` when it holds
/// fewer lines.
pub open spec fn cut_at(t: Seq<char>, h: nat) -> Seq<char>
    decreases t.len(),
{
    if h == 0 || t.len() == 0 {
        Seq::<char>::empty()
    } else if t[0] == '\n' {
        if h == 1 {
            Seq::<char>::empty()
        } else {
            seq!['\n'] + cut_at(t.drop_first(), (h - 1) as nat)
        }
    } else {
        seq![t[0]] + cut_at(t.drop_first(), h)
    }
}

/// `s` with a single trailing newline removed, as splitting into lines
/// does not count one final newline as opening an empty line.
pub open spec fn strip_trailing_nl(s: Seq<char>) -> Seq<char> {
    if s.len() > 0 && s.last() == '\n' {
        s.drop_last()
    } else {
        s
    }
}

/// `s` with every carriage return that closes a line removed: a carriage
/// return followed by a newline reads as the newline alone; a lone
/// carriage return stays.
pub open spec fn strip_cr(s: Seq<char>) -> Seq<char>
    decreases s.len(),
{
    if s.len() == 0 {
        Seq::<char>::empty()
    } else if s[0] == '\r' && s.len() > 1 && s[1] == '\n' {
        strip_cr(s.drop_first())
    } else {
        seq![s[0]] + strip_cr(s.drop_first())
    }
}

/// The first `h` lines of `s`, joined by single newlines: line endings
/// are newlines or carriage-return-newline pairs, and a final line
/// ending opens no further line.
pub open spec fn spec_first_lines(s: Seq<char>, h: nat) -> Seq<char> {
    cut_at(strip_trailing_nl(strip_cr(s)), h)
}

/// A line cap keeps at most `h` lines, hence fewer than `h` newlines.
pub proof fn lemma_cut_at_newlines(t: Seq<char>, h: nat)
    ensures
        count_char(cut_at(t, h), '\n') <= h,
        h > 0 ==> count_char(cut_at(t, h), '\n') <= h - 1,
    decreases t.len(),
{
    if h == 0 || t.len() == 0 {
        assert(count_char(cut_at(t, h), '\n') == 0);
    } else if t[0] == '\n' {
        if h == 1 {
            assert(count_char(cut_at(t, h), '\n') == 0);
        } else {
            lemma_cut_at_newlines(t.drop_first(), (h - 1) as nat);
            let rest = cut_at(t.drop_first(), (h - 1) as nat);
            assert((seq!['\n'] + rest).drop_first() =~= rest);
        }
    } else {
        lemma_cut_at_newlines(t.drop_first(), h);
        let rest = cut_at(t.drop_first(), h);
        assert((seq![t[0]] + rest).drop_first() =~= rest);
    }
}

/// Text previews are bounded by the row budget: the output of the line
/// cap has at most `h` newlines.
pub proof fn lemma_first_lines_newlines(s: Seq<char>, h: nat)
    ensures
        count_char(spec_first_lines(s, h), '\n') <= h,
{
    lemma_cut_at_newlines(strip_trailing_nl(strip_cr(s)), h);
}

/// `s` with every line-closing carriage return removed.
fn normalize_newlines(s: &str) -> (r: String)
    ensures
        r@ == strip_cr(s@),
{
    let len = s.unicode_len();
    let mut out = String::new();
    let mut i: usize = 0;
    proof {
        assert(s@.skip(0) =~= s@);
        assert(out@ + strip_cr(s@) =~= strip_cr(s@));
    }
    while i < len
        invariant
            len == s@.len(),
            i <= len,
            strip_cr(s@) == out@ + strip_cr(s@.skip(i as int)),
        decreases len - i,
    {
        let c = s.get_char(i);
        let ghost rest = s@.skip(i as int);
        let ghost out0 = out@;
        proof {
            assert(rest.len() > 0 && rest[0] == s@[i as int]);
            assert(rest.drop_first() =~= s@.skip(i + 1));
        }
        if c == '\r' && i + 1 < len && s.get_char(i + 1) == '\n' {
            proof {
                assert(rest.len() > 1 && rest[1] == s@[i + 1]);
                assert(strip_cr(rest) =~= strip_cr(rest.drop_first()));
            }
        } else {
            push_char(&mut out, c);
            proof {
                if rest.len() > 1 {
                    assert(rest[1] == s@[i + 1]);
                }
                assert(out@ =~= out0 + seq![rest[0]]);
                assert(strip_cr(rest) =~= seq![rest[0]] + strip_cr(rest.drop_first()));
                assert(out0 + strip_cr(rest) =~= (out0 + seq![rest[0]]) + strip_cr(
                    s@.skip(i + 1),
                ));
            }
        }
        i = i + 1;
    }
    proof {
        assert(s@.skip(len as int) =~= Seq::<char>::empty());
        assert(out@ + strip_cr(s@.skip(len as int)) =~= out@);
    }
    out
}

/// The first `h` lines of `s`: the text before the `h`-th line ending,
/// endings normalized to single newlines, a final ending not counting as
/// opening a further line.
pub fn first_lines(s: &str, h: usize) -> (r: String)
    ensures
        r@ == spec_first_lines(s@, h as nat),
{
    let norm = normalize_newlines(s);
    cut_lines(norm.as_str(), h)
}

/// The text of `s` before its `h`-th newline, a single trailing newline
/// dropped first.
fn cut_lines(s: &str, h: usize) -> (r: String)
    ensures
        r@ == cut_at(strip_trailing_nl(s@), h as nat),
{
    let slen = s.unicode_len();
    let tlen: usize = if slen > 0 && s.get_char(slen - 1) == '\n' {
        slen - 1
    } else {
        slen
    };
    let ghost t = strip_trailing_nl(s@);
    proof {
        if slen > 0 && s@[slen - 1] == '\n' {
            assert(t =~= s@.subrange(0, tlen as int));
        } else {
            assert(t =~= s@.subrange(0, tlen as int));
        }
    }
    let mut out = String::new();
    if h == 0 {
        return out;
    }
    let mut i: usize = 0;
    let mut rem: usize = h;
    proof {
        assert(t.skip(0) =~= t);
        assert(out@ + cut_at(t, h as nat) =~= cut_at(t, h as nat));
    }
    while i < tlen
        invariant
            tlen <= slen == s@.len(),
            t == strip_trailing_nl(s@),
            t == s@.subrange(0, tlen as int),
            i <= tlen,
            1 <= rem <= h,
            cut_at(t, h as nat) == out@ + cut_at(t.skip(i as int), rem as nat),
        decreases tlen - i,
    {
        let c = s.get_char(i);
        let ghost rest = t.skip(i as int);
        proof {
            assert(rest.len() > 0 && rest[0] == s@[i as int]);
            assert(rest.drop_first() =~= t.skip(i + 1));
        }
        if c == '\n' {
            if rem == 1 {
                proof {
                    assert(cut_at(rest, rem as nat) =~= Seq::<char>::empty());
                    assert(out@ + cut_at(rest, rem as nat) =~= out@);
                }
                return out;
            }
            rem = rem - 1;
        }
        push_char(&mut out, c);
        proof {
            if c == '\n' {
                assert(cut_at(rest, (rem + 1) as nat) =~= seq!['\n'] + cut_at(
                    rest.drop_first(),
                    rem as nat,
                ));
                assert(out@ + cut_at(t.skip(i + 1), rem as nat) =~= cut_at(t, h as nat));
            } else {
                assert(cut_at(rest, rem as nat) =~= seq![rest[0]] + cut_at(
                    rest.drop_first(),
                    rem as nat,
                ));
                assert(out@ + cut_at(t.skip(i + 1), rem as nat) =~= cut_at(t, h as nat));
            }
        }
        i = i + 1;
    }
    proof {
        assert(t.skip(tlen as int) =~= Seq::<char>::empty());
        assert(cut_at(t.skip(tlen as int), rem as nat) =~= Seq::<char>::empty());
        assert(out@ =~= cut_at(t, h as nat));
    }
    out
}

} // verus!
