use vstd::prelude::*;

verus! {

broadcast use vstd::string::group_string_axioms;

/// Appends one character to a string (`String::push`): the string's
/// characters afterwards are its characters before, followed by `c`.
#[verifier::external_body]
pub(crate) fn push_char(s: &mut String, c: char)
    ensures
        final(s)@ == old(s)@.push(c),
{
    s.push(c);
}

/// The characters of a string slice, in order.
pub fn chars_of(s: &str) -> (r: Vec<char>)
    ensures
        r@ == s@,
{
    let mut out: Vec<char> = Vec::new();
    for c in it: s.chars()
        invariant
            it.seq() == s@,
            out@ == s@.take(it.index()),
    {
        out.push(c);
        proof {
            assert(s@.take(it.index() + 1) =~= s@.take(it.index()).push(c));
        }
    }
    assert(s@.take(s@.len() as int) =~= s@);
    out
}

/// Builds a string holding exactly the given characters.
pub fn string_from_chars(v: &Vec<char>) -> (r: String)
    ensures
        r@ == v@,
{
    let mut out = String::new();
    let mut i: usize = 0;
    while i < v.len()
        invariant
            i <= v.len(),
            out@ == v@.take(i as int),
        decreases v.len() - i,
    {
        push_char(&mut out, v[i]);
        assert(v@.take(i + 1) =~= v@.take(i as int).push(v@[i as int]));
        i = i + 1;
    }
    assert(v@.take(v@.len() as int) =~= v@);
    out
}

/// The HTML entity that replaces one character, or the character itself.
pub open spec fn escape_char_spec(c: char) -> Seq<char> {
    if c == '&' {
        "&amp;"@
    } else if c == '<' {
        "&lt;"@
    } else if c == '>' {
        "&gt;"@
    } else if c == '"' {
        "&quot;"@
    } else if c == '\'' {
        "&#39;"@
    } else {
        seq![c]
    }
}

/// HTML escaping of a character sequence: each character replaced by
/// `escape_char_spec` of it, in order.
pub open spec fn escape_spec(s: Seq<char>) -> Seq<char>
    decreases s.len(),
{
    if s.len() == 0 {
        Seq::empty()
    } else {
        escape_spec(s.drop_last()) + escape_char_spec(s.last())
    }
}

/// The five characters that HTML escaping replaces.
pub open spec fn is_html_special(c: char) -> bool {
    c == '&' || c == '<' || c == '>' || c == '"' || c == '\''
}

fn append_str_chars(out: &mut String, s: &str)
    ensures
        final(out)@ == old(out)@ + s@,
{
    out.append(s);
}

/// Escapes `&`, `<`, `>`, `"` and `'` as `&amp;`, `&lt;`, `&gt;`, `&quot;`
/// and `&#39;`; every other character is copied unchanged.
pub fn escape_html_literal(input: &str) -> (escaped: String)
    ensures
        escaped@ == escape_spec(input@),
{
    let chars = chars_of(input);
    let mut escaped = String::new();
    let mut i: usize = 0;
    while i < chars.len()
        invariant
            i <= chars.len(),
            chars@ == input@,
            escaped@ == escape_spec(input@.take(i as int)),
        decreases chars.len() - i,
    {
        let ch = chars[i];
        proof {
            reveal_strlit("&amp;");
            reveal_strlit("&lt;");
            reveal_strlit("&gt;");
            reveal_strlit("&quot;");
            reveal_strlit("&#39;");
            assert(input@.take(i + 1).drop_last() =~= input@.take(i as int));
        }
        if ch == '&' {
            append_str_chars(&mut escaped, "&amp;");
        } else if ch == '<' {
            append_str_chars(&mut escaped, "&lt;");
        } else if ch == '>' {
            append_str_chars(&mut escaped, "&gt;");
        } else if ch == '"' {
            append_str_chars(&mut escaped, "&quot;");
        } else if ch == '\'' {
            append_str_chars(&mut escaped, "&#39;");
        } else {
            push_char(&mut escaped, ch);
            assert(escaped@ =~= escape_spec(input@.take(i as int)) + seq![ch]);
        }
        i = i + 1;
    }
    assert(input@.take(chars@.len() as int) =~= input@);
    escaped
}

} // verus!

verus! {

/// Splits a character sequence at every occurrence of `sep`, as
/// `str::split` does: `n` separators give `n + 1` pieces, and empty pieces
/// are kept.
pub open spec fn split_spec(s: Seq<char>, sep: char) -> Seq<Seq<char>>
    decreases s.len(),
{
    if s.len() == 0 {
        seq![Seq::<char>::empty()]
    } else {
        let prev = split_spec(s.drop_last(), sep);
        if s.last() == sep {
            prev.push(Seq::<char>::empty())
        } else {
            prev.update(prev.len() - 1, prev.last().push(s.last()))
        }
    }
}

/// `split_spec` always yields at least one piece.
pub proof fn lemma_split_nonempty(s: Seq<char>, sep: char)
    ensures
        split_spec(s, sep).len() >= 1,
    decreases s.len(),
{
    if s.len() > 0 {
        lemma_split_nonempty(s.drop_last(), sep);
    }
}

/// ASCII upper-casing of one character (`char::to_ascii_uppercase`).
pub open spec fn ascii_upper_spec(c: char) -> char {
    if 'a' <= c && c <= 'z' {
        ((c as u8) - 32) as u8 as char
    } else {
        c
    }
}

/// Whether a character is an ASCII capital letter (`char::is_ascii_uppercase`).
pub open spec fn is_ascii_upper_spec(c: char) -> bool {
    'A' <= c && c <= 'Z'
}

/// `char::to_ascii_uppercase`.
pub fn ascii_upper(c: char) -> (r: char)
    ensures
        r == ascii_upper_spec(c),
{
    if 'a' <= c && c <= 'z' {
        let b: u8 = c as u8;
        (b - 32) as char
    } else {
        c
    }
}

/// A word with its first character upper-cased; the empty word stays empty.
pub open spec fn capitalize_spec(p: Seq<char>) -> Seq<char> {
    if p.len() == 0 {
        Seq::empty()
    } else {
        seq![ascii_upper_spec(p[0])] + p.drop_first()
    }
}

/// The capitalized words of `parts` joined together (empty words vanish).
pub open spec fn join_capitalized(parts: Seq<Seq<char>>) -> Seq<char>
    decreases parts.len(),
{
    if parts.len() == 0 {
        Seq::empty()
    } else {
        join_capitalized(parts.drop_last()) + capitalize_spec(parts.last())
    }
}

/// PascalCase of a snake_case name: the non-empty `_`-separated words, each
/// with an upper-cased first letter, joined without separators.
pub open spec fn pascal_case_spec(s: Seq<char>) -> Seq<char> {
    join_capitalized(split_spec(s, '_'))
}

fn push_capitalized(out: &mut String, part: &Vec<char>)
    ensures
        final(out)@ == old(out)@ + capitalize_spec(part@),
{
    if part.len() > 0 {
        push_char(out, ascii_upper(part[0]));
        let mut j: usize = 1;
        while j < part.len()
            invariant
                1 <= j <= part.len(),
                out@ == old(out)@ + seq![ascii_upper_spec(part@[0])] + part@.subrange(1, j as int),
            decreases part.len() - j,
        {
            push_char(out, part[j]);
            assert(part@.subrange(1, j + 1) =~= part@.subrange(1, j as int).push(part@[j as int]));
            j = j + 1;
        }
        assert(part@.subrange(1, part@.len() as int) =~= part@.drop_first());
        assert(out@ =~= old(out)@ + capitalize_spec(part@));
    }
}

/// Converts a snake_case name to PascalCase (`make_badge` -> `MakeBadge`).
pub fn to_pascal_case(source: &str) -> (out: String)
    ensures
        out@ == pascal_case_spec(source@),
{
    let chars = chars_of(source);
    let mut out = String::new();
    let mut current: Vec<char> = Vec::new();
    let ghost mut done: Seq<Seq<char>> = Seq::empty();
    let mut i: usize = 0;
    assert(source@.take(0) =~= Seq::<char>::empty());
    assert(split_spec(source@.take(0), '_') =~= done.push(current@));
    while i < chars.len()
        invariant
            i <= chars.len(),
            chars@ == source@,
            split_spec(source@.take(i as int), '_') == done.push(current@),
            out@ == join_capitalized(done),
        decreases chars.len() - i,
    {
        let c = chars[i];
        let ghost prefix = source@.take(i + 1);
        assert(prefix.drop_last() =~= source@.take(i as int));
        assert(prefix.last() == c);
        if c == '_' {
            push_capitalized(&mut out, &current);
            proof {
                assert(done.push(current@).drop_last() =~= done);
                done = done.push(current@);
            }
            current = Vec::new();
            assert(split_spec(prefix, '_') =~= done.push(current@));
        } else {
            let ghost old_current = current@;
            current.push(c);
            assert(split_spec(prefix, '_') =~= done.push(current@));
        }
        i = i + 1;
    }
    assert(source@.take(chars@.len() as int) =~= source@);
    push_capitalized(&mut out, &current);
    assert(done.push(current@).drop_last() =~= done);
    out
}

} // verus!

verus! {

/// Whether two string slices hold the same characters.
pub fn str_equal(a: &str, b: &str) -> (r: bool)
    ensures
        r == (a@ == b@),
{
    let x = chars_of(a);
    let y = chars_of(b);
    if x.len() != y.len() {
        return false;
    }
    let mut i: usize = 0;
    while i < x.len()
        invariant
            i <= x.len(),
            x.len() == y.len(),
            x@ == a@,
            y@ == b@,
            forall|j: int| 0 <= j < i ==> x@[j] == y@[j],
        decreases x.len() - i,
    {
        if x[i] != y[i] {
            return false;
        }
        i = i + 1;
    }
    assert(a@ =~= b@);
    true
}

/// Whether `s` contains `::`.
pub open spec fn contains_path_sep(s: Seq<char>) -> bool {
    exists|i: int| 0 <= i && i + 1 < s.len() && #[trigger] s[i] == ':' && s[i + 1] == ':'
}

/// Whether a string contains `::`.
pub fn has_path_sep(s: &str) -> (r: bool)
    ensures
        r == contains_path_sep(s@),
{
    let x = chars_of(s);
    let mut i: usize = 0;
    while x.len() > 0 && i < x.len() - 1
        invariant
            x@ == s@,
            i <= x.len(),
            forall|j: int| 0 <= j < i && j + 1 < x@.len() ==> !(#[trigger] x@[j] == ':' && x@[j + 1] == ':'),
        decreases x.len() - i,
    {
        if x[i] == ':' && x[i + 1] == ':' {
            return true;
        }
        i = i + 1;
    }
    false
}

/// A copy of a list of strings.
pub fn clone_strings(v: &Vec<String>) -> (r: Vec<String>)
    ensures
        r@ == v@,
{
    let mut out: Vec<String> = Vec::new();
    let mut i: usize = 0;
    while i < v.len()
        invariant
            i <= v.len(),
            out@ == v@.take(i as int),
        decreases v.len() - i,
    {
        out.push(v[i].clone());
        assert(v@.take(i + 1) =~= v@.take(i as int).push(v@[i as int]));
        i = i + 1;
    }
    assert(v@.take(v@.len() as int) =~= v@);
    out
}

/// A string holding the characters of a string slice.
pub fn string_of(s: &str) -> (r: String)
    ensures
        r@ == s@,
{
    String::from_str(s)
}

/// Concatenation of a string and a string slice.
pub fn concat_str(a: &String, b: &str) -> (r: String)
    ensures
        r@ == a@ + b@,
{
    let mut out = a.clone();
    out.append(b);
    out
}

} // verus!


verus! {

/// The decimal digit for `d < 10`.
pub open spec fn digit_spec(d: nat) -> char {
    ((48 + d) as u8) as char
}

/// The decimal representation of `n`, without leading zeros.
pub open spec fn decimal_spec(n: nat) -> Seq<char>
    decreases n,
{
    if n < 10 {
        seq![digit_spec(n)]
    } else {
        decimal_spec(n / 10).push(digit_spec(n % 10))
    }
}

fn push_decimal(out: &mut String, n: usize)
    ensures
        final(out)@ == old(out)@ + decimal_spec(n as nat),
    decreases n,
{
    if n >= 10 {
        push_decimal(out, n / 10);
    }
    let d: u8 = (n % 10) as u8;
    push_char(out, (48u8 + d) as char);
    proof {
        if n < 10 {
            assert(old(out)@.push(digit_spec(n as nat)) =~= old(out)@ + seq![digit_spec(n as nat)]);
        } else {
            assert((old(out)@ + decimal_spec((n / 10) as nat)).push(digit_spec((n % 10) as nat)) =~= old(out)@ + decimal_spec(n as nat));
        }
    }
}

/// `n` written in decimal (`usize`'s `Display`).
pub fn decimal_string(n: usize) -> (r: String)
    ensures
        r@ == decimal_spec(n as nat),
{
    let mut out = String::new();
    push_decimal(&mut out, n);
    assert(out@ =~= decimal_spec(n as nat));
    out
}

/// Whether `c` has the Unicode `White_Space` property, which is what
/// `char::is_whitespace` and `str::trim` go by.
pub open spec fn is_white_space_spec(c: char) -> bool {
    let n = c as u32;
    (9 <= n && n <= 13) || n == 32 || n == 0x85 || n == 0xA0 || n == 0x1680 || (0x2000 <= n && n
        <= 0x200A) || n == 0x2028 || n == 0x2029 || n == 0x202F || n == 0x205F || n == 0x3000
}

/// Whether `c` has the Unicode `White_Space` property.
pub fn is_white_space(c: char) -> (r: bool)
    ensures
        r == is_white_space_spec(c),
{
    let n = c as u32;
    (9 <= n && n <= 13) || n == 32 || n == 0x85 || n == 0xA0 || n == 0x1680 || (0x2000 <= n && n
        <= 0x200A) || n == 0x2028 || n == 0x2029 || n == 0x202F || n == 0x205F || n == 0x3000
}

/// Whether a text is empty once trimmed: every character is white space.
pub open spec fn is_blank_spec(s: Seq<char>) -> bool {
    forall|i: int| 0 <= i < s.len() ==> is_white_space_spec(#[trigger] s[i])
}

/// Whether a text is empty once trimmed.
pub fn is_blank(s: &str) -> (r: bool)
    ensures
        r == is_blank_spec(s@),
{
    let chars = chars_of(s);
    let mut i: usize = 0;
    while i < chars.len()
        invariant
            i <= chars.len(),
            chars@ == s@,
            forall|j: int| 0 <= j < i ==> is_white_space_spec(#[trigger] s@[j]),
        decreases chars.len() - i,
    {
        if !is_white_space(chars[i]) {
            return false;
        }
        i = i + 1;
    }
    true
}

/// `s` without its leading white space (`str::trim_start`).
pub open spec fn trim_start_spec(s: Seq<char>) -> Seq<char>
    decreases s.len(),
{
    if s.len() > 0 && is_white_space_spec(s[0]) {
        trim_start_spec(s.drop_first())
    } else {
        s
    }
}

/// `s` without its trailing white space (`str::trim_end`).
pub open spec fn trim_end_spec(s: Seq<char>) -> Seq<char>
    decreases s.len(),
{
    if s.len() > 0 && is_white_space_spec(s.last()) {
        trim_end_spec(s.drop_last())
    } else {
        s
    }
}

/// `s` without leading and trailing white space (`str::trim`).
pub open spec fn trim_spec(s: Seq<char>) -> Seq<char> {
    trim_end_spec(trim_start_spec(s))
}

/// Trimming the start drops exactly the white space before the first other
/// character.
pub proof fn lemma_trim_start(s: Seq<char>, a: int)
    requires
        0 <= a <= s.len(),
        forall|i: int| 0 <= i < a ==> is_white_space_spec(#[trigger] s[i]),
        a == s.len() || !is_white_space_spec(s[a]),
    ensures
        trim_start_spec(s) == s.skip(a),
    decreases a,
{
    if a == 0 {
        assert(s.skip(0) =~= s);
    } else {
        let t = s.drop_first();
        assert forall|i: int| 0 <= i < a - 1 implies is_white_space_spec(#[trigger] t[i]) by {
            assert(t[i] == s[i + 1]);
        }
        if a < s.len() {
            assert(t[a - 1] == s[a]);
        }
        lemma_trim_start(t, a - 1);
        assert(t.skip(a - 1) =~= s.skip(a));
    }
}

/// Trimming the end drops exactly the white space after the last other
/// character.
pub proof fn lemma_trim_end(s: Seq<char>, b: int)
    requires
        0 <= b <= s.len(),
        forall|i: int| b <= i < s.len() ==> is_white_space_spec(#[trigger] s[i]),
        b == 0 || !is_white_space_spec(s[b - 1]),
    ensures
        trim_end_spec(s) == s.take(b),
    decreases s.len() - b,
{
    if b == s.len() {
        assert(s.take(b) =~= s);
    } else {
        let t = s.drop_last();
        assert forall|i: int| b <= i < t.len() implies is_white_space_spec(#[trigger] t[i]) by {
            assert(t[i] == s[i]);
        }
        if b > 0 {
            assert(t[b - 1] == s[b - 1]);
        }
        assert(is_white_space_spec(s[s.len() - 1]));
        lemma_trim_end(t, b);
        assert(t.take(b) =~= s.take(b));
    }
}

/// The characters of `s` without leading and trailing white space.
pub fn trim_chars(s: &Vec<char>) -> (r: Vec<char>)
    ensures
        r@ == trim_spec(s@),
{
    let mut a: usize = 0;
    while a < s.len() && is_white_space(s[a])
        invariant
            a <= s.len(),
            forall|i: int| 0 <= i < a ==> is_white_space_spec(#[trigger] s@[i]),
        decreases s.len() - a,
    {
        a = a + 1;
    }
    proof {
        lemma_trim_start(s@, a as int);
    }
    let ghost t = s@.skip(a as int);
    let mut b: usize = s.len();
    while b > a && is_white_space(s[b - 1])
        invariant
            a <= b <= s.len(),
            t == s@.skip(a as int),
            forall|i: int| b <= i < s.len() ==> is_white_space_spec(#[trigger] s@[i]),
        decreases b - a,
    {
        b = b - 1;
    }
    proof {
        assert forall|i: int| b - a <= i < t.len() implies is_white_space_spec(#[trigger] t[i]) by {
            assert(t[i] == s@[i + a]);
        }
        if b > a {
            assert(t[b - a - 1] == s@[b - 1]);
        }
        lemma_trim_end(t, b - a);
    }
    let mut r: Vec<char> = Vec::new();
    let mut k: usize = a;
    while k < b
        invariant
            a <= k <= b <= s.len(),
            r@ == s@.subrange(a as int, k as int),
        decreases b - k,
    {
        r.push(s[k]);
        assert(s@.subrange(a as int, k + 1) =~= s@.subrange(a as int, k as int).push(s@[k as int]));
        k = k + 1;
    }
    assert(r@ =~= t.take(b - a));
    r
}

/// The pieces of `s` between occurrences of `sep` (`str::split`).
pub fn split_chars(s: &str, sep: char) -> (r: Vec<Vec<char>>)
    ensures
        r@.map_values(|p: Vec<char>| p@) == split_spec(s@, sep),
{
    let chars = chars_of(s);
    let mut done: Vec<Vec<char>> = Vec::new();
    let mut current: Vec<char> = Vec::new();
    let mut i: usize = 0;
    assert(s@.take(0) =~= Seq::<char>::empty());
    assert(split_spec(s@.take(0), sep) =~= done@.map_values(|p: Vec<char>| p@).push(current@));
    while i < chars.len()
        invariant
            i <= chars.len(),
            chars@ == s@,
            split_spec(s@.take(i as int), sep) == done@.map_values(|p: Vec<char>| p@).push(current@),
        decreases chars.len() - i,
    {
        let c = chars[i];
        let ghost prefix = s@.take(i + 1);
        let ghost dv = done@.map_values(|p: Vec<char>| p@);
        assert(prefix.drop_last() =~= s@.take(i as int));
        assert(prefix.last() == c);
        if c == sep {
            let mut piece: Vec<char> = Vec::new();
            std::mem::swap(&mut piece, &mut current);
            done.push(piece);
            assert(done@.map_values(|p: Vec<char>| p@) =~= dv.push(piece@));
            assert(split_spec(prefix, sep) =~= done@.map_values(|p: Vec<char>| p@).push(current@));
        } else {
            current.push(c);
            assert(split_spec(prefix, sep) =~= done@.map_values(|p: Vec<char>| p@).push(current@));
        }
        i = i + 1;
    }
    assert(s@.take(chars@.len() as int) =~= s@);
    let ghost dv = done@.map_values(|p: Vec<char>| p@);
    done.push(current);
    assert(done@.map_values(|p: Vec<char>| p@) =~= dv.push(current@));
    done
}

/// Escaping distributes over concatenation: escaping two texts one after
/// the other gives the escaping of the whole.
pub proof fn lemma_escape_concat(a: Seq<char>, b: Seq<char>)
    ensures
        escape_spec(a + b) == escape_spec(a) + escape_spec(b),
    decreases b.len(),
{
    if b.len() == 0 {
        assert(a + b =~= a);
        assert(escape_spec(a) + escape_spec(b) =~= escape_spec(a));
    } else {
        lemma_escape_concat(a, b.drop_last());
        assert((a + b).drop_last() =~= a + b.drop_last());
        assert((a + b).last() == b.last());
        assert(escape_spec(a + b) =~= escape_spec(a) + escape_spec(b));
    }
}

/// Escaped text holds no `<`, `>`, `"` or `'`, and each `&` in it starts
/// one of the five entities.
pub proof fn lemma_escape_is_inert(s: Seq<char>)
    ensures
        forall|i: int|
            0 <= i < escape_spec(s).len() ==> {
                let c = #[trigger] escape_spec(s)[i];
                c != '<' && c != '>' && c != '"' && c != '\''
            },
    decreases s.len(),
{
    reveal_strlit("&amp;");
    reveal_strlit("&lt;");
    reveal_strlit("&gt;");
    reveal_strlit("&quot;");
    reveal_strlit("&#39;");
    if s.len() > 0 {
        lemma_escape_is_inert(s.drop_last());
        let p = escape_spec(s.drop_last());
        let e = escape_char_spec(s.last());
        assert forall|i: int| 0 <= i < escape_spec(s).len() implies {
            let c = #[trigger] escape_spec(s)[i];
            c != '<' && c != '>' && c != '"' && c != '\''
        } by {
            if i >= p.len() {
                assert(escape_spec(s)[i] == e[i - p.len()]);
            } else {
                assert(escape_spec(s)[i] == p[i]);
            }
        }
    }
}

/// Text without any of the five special characters is left as it is.
pub proof fn lemma_escape_plain_text(s: Seq<char>)
    requires
        forall|i: int| 0 <= i < s.len() ==> !is_html_special(#[trigger] s[i]),
    ensures
        escape_spec(s) == s,
    decreases s.len(),
{
    if s.len() > 0 {
        lemma_escape_plain_text(s.drop_last());
        assert(!is_html_special(s[s.len() - 1]));
        assert(escape_spec(s) =~= s);
    }
}

/// No piece of a split holds the separator.
pub proof fn lemma_split_pieces_lack_sep(s: Seq<char>, sep: char)
    ensures
        forall|k: int, j: int|
            0 <= k < split_spec(s, sep).len() && 0 <= j < split_spec(s, sep)[k].len()
                ==> #[trigger] split_spec(s, sep)[k][j] != sep,
    decreases s.len(),
{
    if s.len() > 0 {
        lemma_split_pieces_lack_sep(s.drop_last(), sep);
        lemma_split_nonempty(s.drop_last(), sep);
        let prev = split_spec(s.drop_last(), sep);
        assert forall|k: int, j: int|
            0 <= k < split_spec(s, sep).len() && 0 <= j < split_spec(s, sep)[k].len()
            implies #[trigger] split_spec(s, sep)[k][j] != sep by {
            if s.last() == sep {
                if k < prev.len() {
                    assert(split_spec(s, sep)[k] == prev[k]);
                }
            } else if k < prev.len() - 1 {
                assert(split_spec(s, sep)[k] == prev[k]);
            } else {
                assert(split_spec(s, sep)[k] == prev.last().push(s.last()));
                if j < prev.last().len() {
                    assert(split_spec(s, sep)[k][j] == prev[prev.len() - 1][j]);
                }
            }
        }
    }
}

/// The capitalized words joined hold no `_` when no word does.
proof fn lemma_join_lacks_underscore(parts: Seq<Seq<char>>)
    requires
        forall|k: int, j: int| 0 <= k < parts.len() && 0 <= j < parts[k].len() ==> #[trigger] parts[k][j] != '_',
    ensures
        forall|i: int| 0 <= i < join_capitalized(parts).len() ==> #[trigger] join_capitalized(parts)[i] != '_',
    decreases parts.len(),
{
    if parts.len() > 0 {
        let init = parts.drop_last();
        assert forall|k: int, j: int| 0 <= k < init.len() && 0 <= j < init[k].len() implies #[trigger] init[k][j] != '_' by {
            assert(init[k] == parts[k]);
        }
        lemma_join_lacks_underscore(init);
        let p = join_capitalized(init);
        let w = parts.last();
        let c = capitalize_spec(w);
        assert forall|i: int| 0 <= i < join_capitalized(parts).len() implies #[trigger] join_capitalized(parts)[i] != '_' by {
            if i >= p.len() {
                let q = i - p.len();
                assert(join_capitalized(parts)[i] == c[q]);
                if q == 0 {
                    assert(w[0] == parts[parts.len() - 1][0]);
                } else {
                    assert(c[q] == w[q]);
                    assert(w[q] == parts[parts.len() - 1][q]);
                }
            } else {
                assert(join_capitalized(parts)[i] == p[i]);
            }
        }
    }
}

/// PascalCase names hold no `_`.
pub proof fn lemma_pascal_case_has_no_underscore(s: Seq<char>)
    ensures
        forall|i: int| 0 <= i < pascal_case_spec(s).len() ==> #[trigger] pascal_case_spec(s)[i] != '_',
{
    lemma_split_pieces_lack_sep(s, '_');
    lemma_join_lacks_underscore(split_spec(s, '_'));
}

/// Joining capitalized words gives nothing exactly when every word is empty.
proof fn lemma_join_empty(parts: Seq<Seq<char>>)
    ensures
        join_capitalized(parts).len() == 0 <==> forall|k: int| 0 <= k < parts.len() ==> (#[trigger] parts[k]).len() == 0,
    decreases parts.len(),
{
    if parts.len() > 0 {
        lemma_join_empty(parts.drop_last());
        if join_capitalized(parts).len() == 0 {
            assert forall|k: int| 0 <= k < parts.len() implies (#[trigger] parts[k]).len() == 0 by {
                if k < parts.len() - 1 {
                    assert(parts[k] == parts.drop_last()[k]);
                }
            }
        } else if forall|k: int| 0 <= k < parts.len() ==> (#[trigger] parts[k]).len() == 0 {
            assert forall|k: int| 0 <= k < parts.drop_last().len() implies (#[trigger] parts.drop_last()[k]).len() == 0 by {
                assert(parts.drop_last()[k] == parts[k]);
            }
            assert(parts[parts.len() - 1].len() == 0);
        }
    }
}

/// The total length of the words of a split is the length of the text
/// less its separators; in particular every word is empty exactly when the
/// text is all separators.
proof fn lemma_split_all_empty(s: Seq<char>, sep: char)
    ensures
        (forall|k: int| 0 <= k < split_spec(s, sep).len() ==> (#[trigger] split_spec(s, sep)[k]).len() == 0)
            <==> (forall|i: int| 0 <= i < s.len() ==> #[trigger] s[i] == sep),
    decreases s.len(),
{
    if s.len() > 0 {
        lemma_split_all_empty(s.drop_last(), sep);
        lemma_split_nonempty(s.drop_last(), sep);
        let prev = split_spec(s.drop_last(), sep);
        let cur = split_spec(s, sep);
        if forall|i: int| 0 <= i < s.len() ==> #[trigger] s[i] == sep {
            assert forall|i: int| 0 <= i < s.drop_last().len() implies #[trigger] s.drop_last()[i] == sep by {
                assert(s.drop_last()[i] == s[i]);
            }
            assert(s[s.len() - 1] == sep);
            assert forall|k: int| 0 <= k < cur.len() implies (#[trigger] cur[k]).len() == 0 by {
                if k < prev.len() {
                    assert(cur[k] == prev[k]);
                }
            }
        } else {
            let i0 = choose|i: int| 0 <= i < s.len() && !(#[trigger] s[i] == sep);
            if i0 == s.len() - 1 {
                assert(cur[cur.len() - 1] == prev.last().push(s.last()));
                assert(cur[cur.len() - 1].len() > 0);
            } else {
                assert(s.drop_last()[i0] == s[i0]);
                let k0 = choose|k: int| 0 <= k < prev.len() && (#[trigger] prev[k]).len() != 0;
                if s.last() == sep || k0 < prev.len() - 1 {
                    assert(cur[k0] == prev[k0]);
                } else {
                    assert(cur[k0] == prev.last().push(s.last()));
                }
            }
        }
    }
}

/// A PascalCase name is empty exactly when the source name is all `_`.
pub proof fn lemma_pascal_case_empty(s: Seq<char>)
    ensures
        pascal_case_spec(s).len() == 0 <==> forall|i: int| 0 <= i < s.len() ==> #[trigger] s[i] == '_',
{
    lemma_join_empty(split_spec(s, '_'));
    lemma_split_all_empty(s, '_');
}

/// Upper-casing is idempotent.
proof fn lemma_ascii_upper_idempotent(c: char)
    ensures
        ascii_upper_spec(ascii_upper_spec(c)) == ascii_upper_spec(c),
{
    if 'a' <= c && c <= 'z' {
        let u = ((c as u8) - 32) as u8 as char;
        assert('A' <= u && u <= 'Z');
    }
}

/// The first character of joined capitalized words is upper-cased.
proof fn lemma_join_first_upper(parts: Seq<Seq<char>>)
    ensures
        join_capitalized(parts).len() > 0 ==> ascii_upper_spec(join_capitalized(parts)[0])
            == join_capitalized(parts)[0],
    decreases parts.len(),
{
    if parts.len() > 0 {
        lemma_join_first_upper(parts.drop_last());
        let p = join_capitalized(parts.drop_last());
        if p.len() > 0 {
            assert(join_capitalized(parts)[0] == p[0]);
        } else if parts.last().len() > 0 {
            assert(join_capitalized(parts)[0] == ascii_upper_spec(parts.last()[0]));
            lemma_ascii_upper_idempotent(parts.last()[0]);
        }
    }
}

/// Converting to PascalCase twice changes nothing more.
pub proof fn lemma_pascal_case_idempotent(s: Seq<char>)
    ensures
        pascal_case_spec(pascal_case_spec(s)) == pascal_case_spec(s),
{
    let t = pascal_case_spec(s);
    lemma_pascal_case_has_no_underscore(s);
    lemma_join_first_upper(split_spec(s, '_'));
    assert(split_spec(t, '_') == seq![t]) by {
        lemma_split_without_sep(t, '_');
    }
    assert(join_capitalized(seq![t]) == join_capitalized(Seq::<Seq<char>>::empty()) + capitalize_spec(t)) by {
        assert(seq![t].drop_last() =~= Seq::<Seq<char>>::empty());
    }
    if t.len() > 0 {
        assert(capitalize_spec(t) =~= t);
    }
    assert(pascal_case_spec(t) =~= t);
}

/// A text without the separator splits into itself alone.
proof fn lemma_split_without_sep(s: Seq<char>, sep: char)
    requires
        forall|i: int| 0 <= i < s.len() ==> #[trigger] s[i] != sep,
    ensures
        split_spec(s, sep) == seq![s],
    decreases s.len(),
{
    if s.len() == 0 {
        assert(s =~= Seq::<char>::empty());
    } else {
        assert forall|i: int| 0 <= i < s.drop_last().len() implies #[trigger] s.drop_last()[i] != sep by {
            assert(s.drop_last()[i] == s[i]);
        }
        lemma_split_without_sep(s.drop_last(), sep);
        assert(s[s.len() - 1] != sep);
        assert(s.drop_last().push(s.last()) =~= s);
        assert(seq![s.drop_last()].update(0, s.drop_last().push(s.last())) =~= seq![s]);
    }
}

/// Decoding of the five entities that escaping writes; every other
/// character is kept.
pub open spec fn unescape_spec(s: Seq<char>) -> Seq<char>
    decreases s.len(),
{
    if s.len() == 0 {
        Seq::empty()
    } else if s.len() >= 5 && s.take(5) == "&amp;"@ {
        seq!['&'] + unescape_spec(s.skip(5))
    } else if s.len() >= 4 && s.take(4) == "&lt;"@ {
        seq!['<'] + unescape_spec(s.skip(4))
    } else if s.len() >= 4 && s.take(4) == "&gt;"@ {
        seq!['>'] + unescape_spec(s.skip(4))
    } else if s.len() >= 6 && s.take(6) == "&quot;"@ {
        seq!['"'] + unescape_spec(s.skip(6))
    } else if s.len() >= 5 && s.take(5) == "&#39;"@ {
        seq!['\''] + unescape_spec(s.skip(5))
    } else {
        seq![s[0]] + unescape_spec(s.drop_first())
    }
}

/// Decoding one escaped character followed by anything gives the
/// character back first.
proof fn lemma_unescape_char(c: char, rest: Seq<char>)
    ensures
        unescape_spec(escape_char_spec(c) + rest) == seq![c] + unescape_spec(rest),
{
    reveal_strlit("&amp;");
    reveal_strlit("&lt;");
    reveal_strlit("&gt;");
    reveal_strlit("&quot;");
    reveal_strlit("&#39;");
    let s = escape_char_spec(c) + rest;
    let e = escape_char_spec(c);
    assert(s.len() > 0);
    assert forall|i: int| 0 <= i < e.len() implies s[i] == e[i] by {}
    if c == '&' {
        assert(s.take(5) =~= "&amp;"@);
        assert(s.skip(5) =~= rest);
    } else if c == '<' {
        assert(s[1] == 'l');
        assert(s.take(4) =~= "&lt;"@);
        assert(s.skip(4) =~= rest);
    } else if c == '>' {
        assert(s[1] == 'g');
        assert(s.take(4) =~= "&gt;"@);
        assert(s.skip(4) =~= rest);
    } else if c == '"' {
        assert(s[1] == 'q');
        assert(s.take(6) =~= "&quot;"@);
        assert(s.skip(6) =~= rest);
    } else if c == '\'' {
        assert(s[1] == '#');
        assert(s.take(5) =~= "&#39;"@);
        assert(s.skip(5) =~= rest);
    } else {
        assert(s[0] == c);
        assert(s.drop_first() =~= rest);
        assert(s.len() >= 5 ==> s.take(5)[0] != "&amp;"@[0]);
        assert(s.len() >= 4 ==> s.take(4)[0] != "&lt;"@[0]);
        assert(s.len() >= 4 ==> s.take(4)[0] != "&gt;"@[0]);
        assert(s.len() >= 6 ==> s.take(6)[0] != "&quot;"@[0]);
        assert(s.len() >= 5 ==> s.take(5)[0] != "&#39;"@[0]);
    }
}

/// Escaping loses nothing: decoding the entities gives the text back, so
/// two texts with the same escaping are the same text.
pub proof fn lemma_escape_round_trip(s: Seq<char>)
    ensures
        unescape_spec(escape_spec(s)) == s,
        forall|t: Seq<char>| #[trigger] escape_spec(t) == escape_spec(s) ==> t == s,
{
    lemma_escape_round_trip_one(s);
    assert forall|t: Seq<char>| #[trigger] escape_spec(t) == escape_spec(s) implies t == s by {
        lemma_escape_round_trip_one(t);
    }
}

/// Decoding the escaping of `t` gives `t`.
proof fn lemma_escape_round_trip_one(t: Seq<char>)
    ensures
        unescape_spec(escape_spec(t)) == t,
    decreases t.len(),
{
    if t.len() > 0 {
        let c = t[0];
        let rest = t.drop_first();
        lemma_escape_round_trip_one(rest);
        lemma_escape_concat(seq![c], rest);
        assert(seq![c] + rest =~= t);
        assert(seq![c].drop_last() =~= Seq::<char>::empty());
        assert(seq![c].last() == c);
        assert(escape_spec(Seq::<char>::empty()) == Seq::<char>::empty());
        assert(escape_spec(seq![c]) == escape_spec(seq![c].drop_last()) + escape_char_spec(c));
        assert(Seq::<char>::empty() + escape_char_spec(c) =~= escape_char_spec(c));
        assert(escape_spec(seq![c]) =~= escape_char_spec(c));
        lemma_unescape_char(c, escape_spec(rest));
    }
}

/// How many times a character occurs in a text.
pub open spec fn count_char(s: Seq<char>, c: char) -> nat
    decreases s.len(),
{
    if s.len() == 0 {
        0
    } else {
        count_char(s.drop_last(), c) + if s.last() == c {
            1nat
        } else {
            0nat
        }
    }
}

/// The total length of some words.
pub open spec fn total_len(parts: Seq<Seq<char>>) -> nat
    decreases parts.len(),
{
    if parts.len() == 0 {
        0
    } else {
        total_len(parts.drop_last()) + parts.last().len()
    }
}

/// The words of a split hold every character of the text but the
/// separators.
proof fn lemma_split_total_len(s: Seq<char>, sep: char)
    ensures
        total_len(split_spec(s, sep)) + count_char(s, sep) == s.len(),
    decreases s.len(),
{
    if s.len() == 0 {
        let one = seq![Seq::<char>::empty()];
        assert(one.drop_last() =~= Seq::<Seq<char>>::empty());
        assert(total_len(one.drop_last()) == 0);
        assert(one.last().len() == 0);
        assert(total_len(one) == 0);
    } else {
        lemma_split_total_len(s.drop_last(), sep);
        lemma_split_nonempty(s.drop_last(), sep);
        let prev = split_spec(s.drop_last(), sep);
        let cur = split_spec(s, sep);
        if s.last() == sep {
            assert(cur.drop_last() =~= prev);
            assert(total_len(cur) == total_len(prev));
        } else {
            assert(cur.drop_last() =~= prev.drop_last());
            assert(cur.last() == prev.last().push(s.last()));
            assert(total_len(prev) == total_len(prev.drop_last()) + prev.last().len());
            assert(total_len(cur) == total_len(prev) + 1);
        }
    }
}

/// Capitalizing keeps each word's length.
proof fn lemma_join_len(parts: Seq<Seq<char>>)
    ensures
        join_capitalized(parts).len() == total_len(parts),
    decreases parts.len(),
{
    if parts.len() > 0 {
        lemma_join_len(parts.drop_last());
    }
}

/// A PascalCase name is as long as the source name without its `_`s: only
/// the separators go, every other character stays.
pub proof fn lemma_pascal_case_len(s: Seq<char>)
    ensures
        pascal_case_spec(s).len() + count_char(s, '_') == s.len(),
{
    lemma_split_total_len(s, '_');
    lemma_join_len(split_spec(s, '_'));
}

/// Escaping never shortens a text, and it keeps the length only of a text
/// without any of the five special characters.
pub proof fn lemma_escape_len(s: Seq<char>)
    ensures
        escape_spec(s).len() >= s.len(),
        escape_spec(s).len() == s.len() ==> forall|i: int| 0 <= i < s.len() ==> !is_html_special(#[trigger] s[i]),
    decreases s.len(),
{
    reveal_strlit("&amp;");
    reveal_strlit("&lt;");
    reveal_strlit("&gt;");
    reveal_strlit("&quot;");
    reveal_strlit("&#39;");
    if s.len() > 0 {
        let init = s.drop_last();
        lemma_escape_len(init);
        if escape_spec(s).len() == s.len() {
            assert(!is_html_special(s.last()));
            assert forall|i: int| 0 <= i < s.len() implies !is_html_special(#[trigger] s[i]) by {
                if i < s.len() - 1 {
                    assert(s[i] == init[i]);
                }
            }
        }
    }
}

/// Escaping leaves a text as it is exactly when it holds none of the five
/// special characters.
pub proof fn lemma_escape_unchanged_iff(s: Seq<char>)
    ensures
        escape_spec(s) == s <==> forall|i: int| 0 <= i < s.len() ==> !is_html_special(#[trigger] s[i]),
{
    lemma_escape_len(s);
    if forall|i: int| 0 <= i < s.len() ==> !is_html_special(#[trigger] s[i]) {
        lemma_escape_plain_text(s);
    }
}

/// Whether a text starts with one of the five entities that escaping
/// writes.
pub open spec fn starts_with_entity(t: Seq<char>) -> bool {
    ||| t.len() >= 5 && t.take(5) == "&amp;"@
    ||| t.len() >= 4 && t.take(4) == "&lt;"@
    ||| t.len() >= 4 && t.take(4) == "&gt;"@
    ||| t.len() >= 6 && t.take(6) == "&quot;"@
    ||| t.len() >= 5 && t.take(5) == "&#39;"@
}

/// Escaping a first character and the rest.
proof fn lemma_escape_cons(c: char, rest: Seq<char>)
    ensures
        escape_spec(seq![c] + rest) == escape_char_spec(c) + escape_spec(rest),
{
    lemma_escape_concat(seq![c], rest);
    assert(seq![c].drop_last() =~= Seq::<char>::empty());
    assert(escape_spec(seq![c]) == escape_spec(seq![c].drop_last()) + escape_char_spec(c));
    assert(Seq::<char>::empty() + escape_char_spec(c) =~= escape_char_spec(c));
}

/// Every `&` in escaped text starts one of the five entities.
pub proof fn lemma_escape_ampersands_start_entities(s: Seq<char>)
    ensures
        forall|i: int|
            0 <= i < escape_spec(s).len() && #[trigger] escape_spec(s)[i] == '&' ==> starts_with_entity(
                escape_spec(s).skip(i),
            ),
    decreases s.len(),
{
    reveal_strlit("&amp;");
    reveal_strlit("&lt;");
    reveal_strlit("&gt;");
    reveal_strlit("&quot;");
    reveal_strlit("&#39;");
    if s.len() > 0 {
        let c = s[0];
        let rest = s.drop_first();
        lemma_escape_ampersands_start_entities(rest);
        lemma_escape_cons(c, rest);
        assert(seq![c] + rest =~= s);
        let e = escape_char_spec(c);
        let q = escape_spec(rest);
        let t = escape_spec(s);
        assert(t == e + q);
        assert forall|i: int| 0 <= i < t.len() && #[trigger] t[i] == '&' implies starts_with_entity(t.skip(i)) by {
            if i < e.len() {
                assert(t[i] == e[i]);
                assert(i == 0);
                assert(t.skip(0) =~= t);
                assert(t.take(e.len() as int) =~= e);
            } else {
                assert(t[i] == q[i - e.len()]);
                assert(t.skip(i) =~= q.skip(i - e.len()));
            }
        }
    }
}

} // verus!
