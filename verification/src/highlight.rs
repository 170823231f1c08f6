//! The syntax-highlighting producer: pick a syntax by file extension,
//! expand tabs, highlight at most the row budget's worth of lines as
//! 24-bit terminal escapes, and close with a reset escape. The escape
//! codes never add newlines, so the output stays within the row budget.

use vstd::prelude::*;

use crate::preview::{lemma_count_char_add, Preview};
use crate::text::count_char;

verus! {

#[verifier::external_type_specification]
#[verifier::external_body]
pub struct ExSyntaxSet(syntect::parsing::SyntaxSet);

#[verifier::external_type_specification]
#[verifier::external_body]
pub struct ExSyntaxReference(syntect::parsing::SyntaxReference);

#[verifier::external_type_specification]
#[verifier::external_body]
pub struct ExTheme(syntect::highlighting::Theme);

#[verifier::external_type_specification]
#[verifier::external_body]
pub struct ExHighlightLines<'a>(syntect::easy::HighlightLines<'a>);

/// Whether the bytes are a well-formed theme document: a function of the
/// bytes alone.
pub uninterp spec fn theme_parses(data: Seq<u8>) -> bool;

/// Relies on syntect::highlighting::ThemeSet::load_from_reader: parses
/// one theme from an in-memory theme document; whether it parses depends
/// on the bytes alone, and a parse error is returned, never thrown.
#[verifier::external_body]
fn theme_from_bytes(data: &Vec<u8>) -> (r: Option<syntect::highlighting::Theme>)
    ensures
        r is Some <==> theme_parses(data@),
{
    let mut cur = std::io::Cursor::new(data.as_slice());
    syntect::highlighting::ThemeSet::load_from_reader(&mut cur).ok()
}

/// Relies on syntect::highlighting::ThemeSet::load_defaults: looks `name`
/// up among the built-in themes, whose embedded dump holds the ocean
/// fallback.
#[verifier::external_body]
fn builtin_theme(name: &str) -> (r: Option<syntect::highlighting::Theme>)
    ensures
        name@ == "base16-ocean.dark"@ ==> r is Some,
{
    syntect::highlighting::ThemeSet::load_defaults().themes.remove(name)
}

/// Relies on syntect::parsing::SyntaxSet::find_syntax_by_extension.
#[verifier::external_body]
fn find_syntax<'a>(ss: &'a syntect::parsing::SyntaxSet, ext: &str) -> (r: Option<
    &'a syntect::parsing::SyntaxReference,
>)
{
    ss.find_syntax_by_extension(ext)
}

/// Relies on syntect::parsing::SyntaxSet::find_syntax_by_name: a plain
/// search, absent when the set holds no syntax of that name.
#[verifier::external_body]
fn find_syntax_by_name<'a>(ss: &'a syntect::parsing::SyntaxSet, name: &str) -> (r: Option<
    &'a syntect::parsing::SyntaxReference,
>)
{
    ss.find_syntax_by_name(name)
}

/// Relies on syntect::easy::HighlightLines::new.
#[verifier::external_body]
fn new_highlighter<'a>(
    sr: &syntect::parsing::SyntaxReference,
    theme: &'a syntect::highlighting::Theme,
) -> (r: syntect::easy::HighlightLines<'a>)
{
    syntect::easy::HighlightLines::new(sr, theme)
}

/// Relies on syntect::easy::HighlightLines::highlight_line, whose styled
/// regions cover exactly the line's text, and on
/// syntect::util::as_24_bit_terminal_escaped, whose colour escapes hold no
/// newline: the escaped line holds exactly the newlines of the input.
#[verifier::external_body]
fn highlight_line_escaped(
    hl: &mut syntect::easy::HighlightLines<'_>,
    line: &String,
    ss: &syntect::parsing::SyntaxSet,
) -> (r: Option<String>)
    ensures
        r matches Some(t) ==> count_char(t@, '\n') == count_char(line@, '\n'),
{
    match hl.highlight_line(line.as_str(), ss) {
        Ok(regions) => Some(syntect::util::as_24_bit_terminal_escaped(&regions[..], false)),
        Err(_) => None,
    }
}

/// The theme the highlighter uses: the user's theme document when it
/// parses, else the built-in fallback. A theme always comes back, so a
/// failing theme source alone never fails a preview; the flag reports
/// whether the user's document supplied it.
pub fn load_theme(user_theme: &Option<Vec<u8>>) -> (r: (syntect::highlighting::Theme, bool))
    ensures
        r.1 == (user_theme matches Some(d) && theme_parses(d@)),
{
    match user_theme {
        Some(data) => match theme_from_bytes(data) {
            Some(t) => (t, true),
            None => (fallback_theme(), false),
        },
        None => (fallback_theme(), false),
    }
}

/// The built-in fallback theme, present in every build.
fn fallback_theme() -> (r: syntect::highlighting::Theme)
{
    match builtin_theme("base16-ocean.dark") {
        Some(t) => t,
        None => vstd::pervasive::unreached(),
    }
}

/// `s` with each tab replaced by `sp`.
pub open spec fn expand_seq(s: Seq<char>, sp: Seq<char>) -> Seq<char>
    decreases s.len(),
{
    if s.len() == 0 {
        Seq::<char>::empty()
    } else {
        (if s[0] == '\t' {
            sp
        } else {
            seq![s[0]]
        }) + expand_seq(s.drop_first(), sp)
    }
}

/// Tab expansion touches no newline.
pub proof fn lemma_expand_seq_newlines(s: Seq<char>, sp: Seq<char>)
    requires
        count_char(sp, '\n') == 0,
    ensures
        count_char(expand_seq(s, sp), '\n') == count_char(s, '\n'),
    decreases s.len(),
{
    if s.len() > 0 {
        lemma_expand_seq_newlines(s.drop_first(), sp);
        let head: Seq<char> = if s[0] == '\t' {
            sp
        } else {
            seq![s[0]]
        };
        lemma_count_char_add(head, expand_seq(s.drop_first(), sp), '\n');
        assert(count_char(Seq::<char>::empty(), '\n') == 0);
        if s[0] != '\t' {
            assert(seq![s[0]].drop_first() =~= Seq::<char>::empty());
            assert(count_char(seq![s[0]], '\n') == if s[0] == '\n' { 1int } else { 0int });
        }
    }
}

/// Replace each tab in `line` by `spaces`.
pub fn expand_tabs(line: &String, spaces: &String) -> (r: String)
    ensures
        r@ == expand_seq(line@, spaces@),
{
    let s = line.as_str();
    let len = s.unicode_len();
    let mut out = String::new();
    let mut i: usize = 0;
    proof {
        assert(s@.skip(0) =~= s@);
        assert(out@ + expand_seq(s@, spaces@) =~= expand_seq(line@, spaces@));
    }
    while i < len
        invariant
            len == s@.len(),
            s@ == line@,
            i <= len,
            expand_seq(line@, spaces@) == out@ + expand_seq(s@.skip(i as int), spaces@),
        decreases len - i,
    {
        let c = s.get_char(i);
        let ghost rest = s@.skip(i as int);
        let ghost out0 = out@;
        proof {
            assert(rest.len() > 0 && rest[0] == s@[i as int]);
            assert(rest.drop_first() =~= s@.skip(i + 1));
        }
        if c == '\t' {
            out.append(spaces.as_str());
        } else {
            crate::text::push_char(&mut out, c);
        }
        proof {
            let head: Seq<char> = if rest[0] == '\t' {
                spaces@
            } else {
                seq![rest[0]]
            };
            assert(out@ =~= out0 + head);
            assert(expand_seq(rest, spaces@) =~= head + expand_seq(rest.drop_first(), spaces@));
            assert(out0 + expand_seq(rest, spaces@) =~= (out0 + head) + expand_seq(
                s@.skip(i + 1),
                spaces@,
            ));
        }
        i = i + 1;
    }
    proof {
        assert(s@.skip(len as int) =~= Seq::<char>::empty());
        assert(out@ + expand_seq(s@.skip(len as int), spaces@) =~= out@);
    }
    out
}

/// A run of `n` spaces, the expansion of one tab.
pub fn tab_spaces(n: usize) -> (r: String)
    ensures
        r@.len() == n,
        count_char(r@, '\n') == 0,
        forall|i: int| 0 <= i < n ==> r@[i] == ' ',
    decreases n,
{
    let mut out = String::new();
    let mut i: usize = 0;
    while i < n
        invariant
            i <= n,
            out@.len() == i,
            count_char(out@, '\n') == 0,
            forall|j: int| 0 <= j < i ==> out@[j] == ' ',
        decreases n - i,
    {
        let ghost out0 = out@;
        crate::text::push_char(&mut out, ' ');
        proof {
            assert(out@ =~= out0 + seq![' ']);
            lemma_count_char_add(out0, seq![' '], '\n');
            assert(seq![' '].drop_first() =~= Seq::<char>::empty());
            assert(count_char(Seq::<char>::empty(), '\n') == 0);
            assert(count_char(seq![' '], '\n') == 0);
        }
        i = i + 1;
    }
    out
}

impl Preview {
    /// Highlight at most `rows` of the given lines, tabs expanded to
    /// `spaces`, using the syntax registered for the file extension `ext`
    /// (the set's plain-text syntax when none is). Each line carries at
    /// most one newline, as line-wise reading hands them over, so the
    /// output holds at most `rows` newlines; it closes with a reset
    /// escape. Absent only when a consumed line fails to highlight, or
    /// when a set without a plain-text syntax leaves nothing to
    /// highlight with; with no line to consume the escape alone comes
    /// back.
    pub fn highlight(
        lines: &Vec<String>,
        rows: usize,
        spaces: &String,
        ss: &syntect::parsing::SyntaxSet,
        theme: &syntect::highlighting::Theme,
        ext: &str,
    ) -> (r: Option<String>)
        requires
            forall|i: int| 0 <= i < lines@.len() ==> count_char((#[trigger] lines@[i])@, '\n') <= 1,
            count_char(spaces@, '\n') == 0,
        ensures
            r matches Some(t) ==> count_char(t@, '\n') <= rows,
            r matches Some(t) ==> (t@.len() >= 4 && t@.subrange(
                t@.len() - 4,
                t@.len() as int,
            ) == seq!['\x1b', '[', '0', 'm']),
            (rows == 0 || lines@.len() == 0) ==> r is Some,
    {
        let mut buf = String::new();
        let n = if rows < lines.len() {
            rows
        } else {
            lines.len()
        };
        if n > 0 {
            let sr = match find_syntax(ss, ext) {
                Some(s) => s,
                None => match find_syntax_by_name(ss, "Plain Text") {
                    Some(s) => s,
                    None => {
                        return None;
                    },
                },
            };
            let mut hl = new_highlighter(sr, theme);
            let mut i: usize = 0;
            while i < n
                invariant
                    n <= lines@.len(),
                    n <= rows,
                    i <= n,
                    count_char(buf@, '\n') <= i,
                    forall|k: int| 0 <= k < lines@.len() ==> count_char(
                        (#[trigger] lines@[k])@,
                        '\n',
                    ) <= 1,
                    count_char(spaces@, '\n') == 0,
                decreases n - i,
            {
                let expanded = expand_tabs(&lines[i], spaces);
                proof {
                    lemma_expand_seq_newlines(lines@[i as int]@, spaces@);
                }
                let colored = match highlight_line_escaped(&mut hl, &expanded, ss) {
                    Some(t) => t,
                    None => {
                        return None;
                    },
                };
                let ghost buf0 = buf@;
                buf.append(colored.as_str());
                proof {
                    lemma_count_char_add(buf0, colored@, '\n');
                }
                i = i + 1;
            }
        }
        proof {
            assert(count_char(buf@, '\n') <= rows);
        }
        let ghost buf1 = buf@;
        crate::text::push_char(&mut buf, '\x1b');
        crate::text::push_char(&mut buf, '[');
        crate::text::push_char(&mut buf, '0');
        crate::text::push_char(&mut buf, 'm');
        proof {
            let reset = seq!['\x1b', '[', '0', 'm'];
            assert(buf@ =~= buf1 + reset);
            lemma_count_char_add(buf1, reset, '\n');
            assert(buf@.subrange(buf@.len() - 4, buf@.len() as int) =~= reset);
            assert(count_char(reset, '\n') == 0) by {
                assert(reset.drop_first() =~= seq!['[', '0', 'm']);
                assert(seq!['[', '0', 'm'].drop_first() =~= seq!['0', 'm']);
                assert(seq!['0', 'm'].drop_first() =~= seq!['m']);
                assert(seq!['m'].drop_first() =~= Seq::<char>::empty());
                assert(count_char(Seq::<char>::empty(), '\n') == 0);
                assert(count_char(seq!['m'], '\n') == 0);
                assert(count_char(seq!['0', 'm'], '\n') == 0);
                assert(count_char(seq!['[', '0', 'm'], '\n') == 0);
            }
        }
        Some(buf)
    }
}

} // verus!
