use vstd::prelude::*;

use crate::text::push_char;

verus! {

/// What a single title character becomes in a slug, after ASCII lowercasing:
/// letters and digits stay, common accented vowels and `ñ` lose their accent,
/// apostrophes and backslashes become NUL, and everything else a space.
pub open spec fn slug_char(c: char) -> char {
    let l = if 'A' <= c && c <= 'Z' { ((c as u8) + 32u8) as char } else { c };
    if ('a' <= l && l <= 'z') || ('0' <= l && l <= '9') {
        l
    } else if l == 'á' || l == 'à' || l == 'ä' || l == 'â' {
        'a'
    } else if l == 'é' || l == 'è' || l == 'ë' || l == 'ê' {
        'e'
    } else if l == 'í' || l == 'ì' || l == 'ï' || l == 'î' {
        'i'
    } else if l == 'ó' || l == 'ò' || l == 'ö' || l == 'ô' {
        'o'
    } else if l == 'ú' || l == 'ù' || l == 'ü' || l == 'û' {
        'u'
    } else if l == 'ñ' {
        'n'
    } else if l == '\'' || l == '\\' {
        '\0'
    } else {
        ' '
    }
}

/// The title with every character replaced by its slug character.
pub open spec fn slug_chars(s: Seq<char>) -> Seq<char> {
    s.map_values(|c: char| slug_char(c))
}

/// The space-separated words of `m`, joined by single dashes: runs of spaces
/// collapse, and leading or trailing spaces vanish. Stated by the last
/// character: a space adds nothing, a character that continues a word is
/// appended, and one that starts a word is appended after a dash unless it
/// starts the first word.
pub open spec fn dash_joined(m: Seq<char>) -> Seq<char>
    decreases m.len(),
{
    if m.len() == 0 {
        Seq::empty()
    } else {
        let p = dash_joined(m.drop_last());
        let c = m.last();
        if c == ' ' {
            p
        } else if m.len() >= 2 && m[m.len() - 2] != ' ' {
            p.push(c)
        } else if p.len() == 0 {
            seq![c]
        } else {
            p.push('-').push(c)
        }
    }
}

/// The slug of a title.
pub open spec fn slug_of(title: Seq<char>) -> Seq<char> {
    dash_joined(slug_chars(title))
}

fn to_slug_char(c: char) -> (r: char)
    ensures
        r == slug_char(c),
{
    let l = if 'A' <= c && c <= 'Z' {
        ((c as u8) + 32u8) as char
    } else {
        c
    };
    match l {
        'a'..='z' | '0'..='9' => l,
        'á' | 'à' | 'ä' | 'â' => 'a',
        'é' | 'è' | 'ë' | 'ê' => 'e',
        'í' | 'ì' | 'ï' | 'î' => 'i',
        'ó' | 'ò' | 'ö' | 'ô' => 'o',
        'ú' | 'ù' | 'ü' | 'û' => 'u',
        'ñ' => 'n',
        '\'' | '\\' => '\0',
        _ => ' ',
    }
}

/// Turns an article title into its URL slug.
pub fn slugify(title: &str) -> (r: String)
    ensures
        r@ == slug_of(title@),
{
    let n = title.unicode_len();
    let ghost m = slug_chars(title@);
    let mut out = String::new();
    let mut in_word = false;
    let mut i: usize = 0;
    while i < n
        invariant
            n == title@.len(),
            m == slug_chars(title@),
            0 <= i <= n,
            out@ == dash_joined(m.take(i as int)),
            in_word == (i > 0 && m[i - 1] != ' '),
        decreases n - i,
    {
        let c = to_slug_char(title.get_char(i));
        assert(m.take(i + 1).drop_last() =~= m.take(i as int));
        if c == ' ' {
        } else if in_word {
            push_char(&mut out, c);
        } else if out.unicode_len() == 0 {
            push_char(&mut out, c);
        } else {
            push_char(&mut out, '-');
            push_char(&mut out, c);
        }
        in_word = c != ' ';
        i = i + 1;
    }
    assert(m.take(n as int) =~= m);
    out
}

} // verus!
