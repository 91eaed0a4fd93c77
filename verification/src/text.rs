//! Character-level string building used by every manifest and address builder.

use vstd::prelude::*;

verus! {

broadcast use vstd::string::group_string_axioms;

/// Appends one character to `s`.
///
/// Calls `String::push`, which the standard library documents as appending the
/// given `char` to the end of the string.
#[verifier::external_body]
pub(crate) fn push_char(s: &mut String, c: char)
    ensures
        final(s)@ == old(s)@.push(c),
{
    s.push(c)
}

/// The characters that stand for `c` inside a double-quoted manifest literal.
pub open spec fn escape_char(c: char) -> Seq<char> {
    if c == '\\' {
        seq!['\\', '\\']
    } else if c == '"' {
        seq!['\\', '"']
    } else {
        seq![c]
    }
}

/// `s` with every backslash doubled and every double quote preceded by a backslash.
pub open spec fn escape_spec(s: Seq<char>) -> Seq<char>
    decreases s.len(),
{
    if s.len() == 0 {
        Seq::empty()
    } else {
        escape_spec(s.drop_last()) + escape_char(s.last())
    }
}

/// Reading an escaped literal back: a backslash stands for the character after it.
pub open spec fn unescape_spec(t: Seq<char>) -> Seq<char>
    decreases t.len(),
{
    if t.len() == 0 {
        Seq::empty()
    } else if t[0] == '\\' && t.len() >= 2 {
        seq![t[1]] + unescape_spec(t.skip(2))
    } else {
        seq![t[0]] + unescape_spec(t.skip(1))
    }
}

/// Escaping distributes over concatenation.
pub proof fn lemma_escape_concat(a: Seq<char>, b: Seq<char>)
    ensures
        escape_spec(a + b) == escape_spec(a) + escape_spec(b),
    decreases b.len(),
{
    if b.len() == 0 {
        assert(a + b =~= a);
        assert(escape_spec(a) + escape_spec(b) =~= escape_spec(a));
    } else {
        lemma_escape_concat(a, b.drop_last());
        assert((a + b).drop_last() =~= a + b.drop_last());
        assert((a + b).last() == b.last());
        assert(escape_spec(a + b) =~= escape_spec(a) + escape_spec(b));
    }
}

/// Unescaping an escaped text gives the text back: a name written into a manifest
/// literal is read as exactly that name, quotes and backslashes included.
pub proof fn lemma_escape_roundtrip(s: Seq<char>)
    ensures
        unescape_spec(escape_spec(s)) == s,
    decreases s.len(),
{
    if s.len() > 0 {
        let head = seq![s[0]];
        let rest = s.skip(1);
        assert(head + rest =~= s);
        lemma_escape_concat(head, rest);
        assert(head.drop_last() =~= Seq::<char>::empty());
        assert(head.last() == s[0]);
        assert(escape_spec(head.drop_last()) =~= Seq::<char>::empty());
        assert(escape_spec(head) =~= escape_char(s[0]));
        lemma_escape_roundtrip(rest);
        let e = escape_spec(s);
        let ec = escape_char(s[0]);
        assert(e == ec + escape_spec(rest));
        if s[0] == '\\' || s[0] == '"' {
            assert(e.skip(2) =~= escape_spec(rest));
        } else {
            assert(e.skip(1) =~= escape_spec(rest));
        }
        assert(unescape_spec(e) =~= s);
    }
}

/// The characters that escaping marks with a backslash: the backslash and the double quote.
pub open spec fn is_escaped(c: char) -> bool {
    c == '\\' || c == '"'
}

/// Escaping changes nothing but backslashes and double quotes: a text with neither is
/// left as it is, and escaping lengthens a text by exactly one character for each
/// backslash or double quote it holds.
pub proof fn lemma_escape_only_marks_specials(s: Seq<char>)
    ensures
        (forall|i: int| 0 <= i < s.len() ==> !is_escaped(#[trigger] s[i])) ==> escape_spec(s) == s,
        escape_spec(s).len() == s.len() + s.filter(|c: char| is_escaped(c)).len(),
    decreases s.len(),
{
    reveal_with_fuel(Seq::filter, 1);
    if s.len() > 0 {
        let p = s.drop_last();
        lemma_escape_only_marks_specials(p);
        assert(s.filter(|c: char| is_escaped(c)) == if is_escaped(s.last()) {
            p.filter(|c: char| is_escaped(c)).push(s.last())
        } else {
            p.filter(|c: char| is_escaped(c))
        });
        if forall|i: int| 0 <= i < s.len() ==> !is_escaped(#[trigger] s[i]) {
            assert forall|i: int| 0 <= i < p.len() implies !is_escaped(#[trigger] p[i]) by {
                assert(p[i] == s[i]);
            }
            assert(!is_escaped(s[s.len() - 1]));
            assert(s =~= p.push(s.last()));
        }
    }
}

/// Escapes `s` so that it can stand between double quotes in a transaction manifest.
pub fn escape(s: &str) -> (res: String)
    ensures
        res@ == escape_spec(s@),
        (forall|i: int| 0 <= i < s@.len() ==> !is_escaped(#[trigger] s@[i])) ==> res@ == s@,
        res@.len() == s@.len() + s@.filter(|c: char| is_escaped(c)).len(),
{
    let mut res = String::new();
    for c in it: s.chars()
        invariant
            it.seq() == s@,
            res@ == escape_spec(s@.take(it.index() as int)),
    {
        proof {
            let i = it.index() as int;
            assert(s@.take(i + 1).drop_last() =~= s@.take(i));
        }
        if c == '\\' {
            push_char(&mut res, '\\');
            push_char(&mut res, '\\');
        } else if c == '"' {
            push_char(&mut res, '\\');
            push_char(&mut res, '"');
        } else {
            push_char(&mut res, c);
        }
    }
    proof {
        assert(s@.take(s@.len() as int) =~= s@);
        lemma_escape_only_marks_specials(s@);
    }
    res
}


/// The decimal digit character for `d`.
pub open spec fn digit_char(d: nat) -> char {
    if d == 0 { '0' } else if d == 1 { '1' } else if d == 2 { '2' } else if d == 3 { '3' }
    else if d == 4 { '4' } else if d == 5 { '5' } else if d == 6 { '6' } else if d == 7 { '7' }
    else if d == 8 { '8' } else { '9' }
}

/// The shortest decimal spelling of `n`, most significant digit first.
pub open spec fn decimal_spec(n: nat) -> Seq<char>
    decreases n,
{
    if n < 10 {
        seq![digit_char(n)]
    } else {
        decimal_spec(n / 10).push(digit_char(n % 10))
    }
}

fn digit(d: u64) -> (c: char)
    requires
        d < 10,
    ensures
        c == digit_char(d as nat),
{
    if d == 0 { '0' } else if d == 1 { '1' } else if d == 2 { '2' } else if d == 3 { '3' }
    else if d == 4 { '4' } else if d == 5 { '5' } else if d == 6 { '6' } else if d == 7 { '7' }
    else if d == 8 { '8' } else { '9' }
}

/// Appends the decimal spelling of `n` to `out`.
pub fn push_decimal(out: &mut String, n: u64)
    ensures
        final(out)@ == old(out)@ + decimal_spec(n as nat),
    decreases n,
{
    if n >= 10 {
        push_decimal(out, n / 10);
    }
    push_char(out, digit(n % 10));
    assert(out@ =~= old(out)@ + decimal_spec(n as nat));
}

/// `s` padded on the left with `'0'` up to `width` characters; unchanged when it is
/// already that long.
pub open spec fn pad_left_zeros_spec(s: Seq<char>, width: nat) -> Seq<char> {
    if s.len() >= width {
        s
    } else {
        Seq::new((width - s.len()) as nat, |i: int| '0') + s
    }
}

/// Appends `s`, left-padded with zeros to `width` characters, to `out`.
pub fn push_padded_zeros(out: &mut String, s: &str, width: usize)
    ensures
        final(out)@ == old(out)@ + pad_left_zeros_spec(s@, width as nat),
{
    let len = s.unicode_len();
    let ghost start = out@;
    if len < width {
        let fill = width - len;
        let mut i: usize = 0;
        while i < fill
            invariant
                i <= fill,
                out@ == start + Seq::new(i as nat, |k: int| '0'),
            decreases fill - i,
        {
            push_char(out, '0');
            i = i + 1;
            assert(out@ =~= start + Seq::new(i as nat, |k: int| '0'));
        }
    }
    out.append(s);
    assert(out@ =~= start + pad_left_zeros_spec(s@, width as nat));
}

/// Whether `s` begins with `prefix`.
pub open spec fn has_prefix(s: Seq<char>, prefix: Seq<char>) -> bool {
    prefix.len() <= s.len() && s.subrange(0, prefix.len() as int) == prefix
}

/// The characters of `s`, in order.
pub fn chars_of(s: &str) -> (v: Vec<char>)
    ensures
        v@ == s@,
{
    let mut v: Vec<char> = Vec::new();
    for c in it: s.chars()
        invariant
            it.seq() == s@,
            v@ == s@.take(it.index() as int),
    {
        v.push(c);
        proof {
            assert(v@ =~= s@.take(it.index() as int + 1));
        }
    }
    assert(s@.take(s@.len() as int) =~= s@);
    v
}

/// Whether `s` begins with `prefix`, compared character by character.
pub fn starts_with(s: &str, prefix: &str) -> (r: bool)
    ensures
        r == has_prefix(s@, prefix@),
{
    let a = chars_of(s);
    let b = chars_of(prefix);
    if b.len() > a.len() {
        return false;
    }
    let mut i: usize = 0;
    while i < b.len()
        invariant
            b@ == prefix@,
            a@ == s@,
            b.len() <= a.len(),
            i <= b.len(),
            forall|k: int| 0 <= k < i ==> a@[k] == b@[k],
        decreases b.len() - i,
    {
        if a[i] != b[i] {
            assert(s@.subrange(0, prefix@.len() as int)[i as int] != prefix@[i as int]);
            return false;
        }
        i = i + 1;
    }
    assert(s@.subrange(0, prefix@.len() as int) =~= prefix@);
    true
}


/// Whether `c` has the Unicode `White_Space` property.
pub open spec fn is_white_space(c: char) -> bool {
    let u = c as u32;
    (0x09 <= u <= 0x0D) || u == 0x20 || u == 0x85 || u == 0xA0 || u == 0x1680
        || (0x2000 <= u <= 0x200A) || u == 0x2028 || u == 0x2029 || u == 0x202F
        || u == 0x205F || u == 0x3000
}

/// Whether `c` has the Unicode `White_Space` property, as `char::is_whitespace` tests it.
pub fn white_space(c: char) -> (r: bool)
    ensures
        r == is_white_space(c),
{
    let u = c as u32;
    (0x09 <= u && u <= 0x0D) || u == 0x20 || u == 0x85 || u == 0xA0 || u == 0x1680
        || (0x2000 <= u && u <= 0x200A) || u == 0x2028 || u == 0x2029 || u == 0x202F
        || u == 0x205F || u == 0x3000
}

/// Whether every character of `s` is white space (so that trimming leaves nothing).
pub open spec fn is_blank(s: Seq<char>) -> bool {
    forall|i: int| 0 <= i < s.len() ==> is_white_space(#[trigger] s[i])
}

/// `l` without one trailing carriage return.
pub open spec fn strip_cr(l: Seq<char>) -> Seq<char> {
    if l.len() > 0 && l.last() == '\r' { l.drop_last() } else { l }
}

/// The index of the first line feed in `s` at or after `i`.
pub open spec fn newline_from(s: Seq<char>, i: int) -> Option<int>
    decreases s.len() - i,
{
    if i < 0 || i >= s.len() {
        None
    } else if s[i] == '\n' {
        Some(i)
    } else {
        newline_from(s, i + 1)
    }
}

/// The lines of `s`: split at each line feed, a line ended by `\r\n` losing its `\r`,
/// and no empty line after a final line feed.
pub open spec fn lines_spec(s: Seq<char>) -> Seq<Seq<char>>
    decreases s.len(),
{
    if s.len() == 0 {
        Seq::empty()
    } else {
        match newline_from(s, 0) {
            Some(i) => if 0 <= i < s.len() {
                seq![strip_cr(s.take(i))] + lines_spec(s.skip(i + 1))
            } else {
                Seq::empty()
            },
            None => seq![s],
        }
    }
}

proof fn lemma_newline_from_found(s: Seq<char>, i: int, k: int)
    requires
        0 <= i <= k < s.len(),
        s[k] == '\n',
        forall|j: int| i <= j < k ==> s[j] != '\n',
    ensures
        newline_from(s, i) == Some(k),
    decreases k - i,
{
    if i < k {
        lemma_newline_from_found(s, i + 1, k);
    }
}

proof fn lemma_newline_from_none(s: Seq<char>, i: int)
    requires
        0 <= i,
        forall|j: int| i <= j < s.len() ==> s[j] != '\n',
    ensures
        newline_from(s, i) is None,
    decreases s.len() - i,
{
    if i < s.len() {
        lemma_newline_from_none(s, i + 1);
    }
}

/// The lines of `text`, as `str::lines` yields them.
pub fn lines(text: &str) -> (res: Vec<String>)
    ensures
        res@.map_values(|l: String| l@) == lines_spec(text@),
{
    let cs = chars_of(text);
    let ghost s = text@;
    let mut res: Vec<String> = Vec::new();
    let mut cur = String::new();
    let mut start: usize = 0;
    let mut k: usize = 0;
    assert(s.skip(0) =~= s);
    assert(res@.map_values(|l: String| l@) + lines_spec(s.skip(0)) =~= lines_spec(s));
    while k < cs.len()
        invariant
            cs@ == s,
            start <= k <= cs.len(),
            cur@ == s.subrange(start as int, k as int),
            forall|j: int| start <= j < k ==> s[j] != '\n',
            res@.map_values(|l: String| l@) + lines_spec(s.skip(start as int)) == lines_spec(s),
        decreases cs.len() - k,
    {
        let c = cs[k];
        if c == '\n' {
            let ghost rest = s.skip(start as int);
            proof {
                lemma_newline_from_found(rest, 0, k - start);
                assert(rest.take(k - start) =~= cur@);
                assert(rest.skip(k - start + 1) =~= s.skip(k + 1));
            }
            let ghost before = res@.map_values(|l: String| l@);
            let line = if !cur.as_str().is_empty() && ends_with_cr(&cur) { drop_last_char(&cur) } else { cur };
            res.push(line);
            assert(res@.map_values(|l: String| l@) =~= before.push(strip_cr(rest.take(k - start))));
            assert(seq![strip_cr(rest.take(k - start))] + lines_spec(s.skip(k + 1)) == lines_spec(rest));
            assert(before + lines_spec(rest) == lines_spec(s));
            assert(res@.map_values(|l: String| l@) + lines_spec(s.skip(k + 1))
                =~= before + (seq![strip_cr(rest.take(k - start))] + lines_spec(s.skip(k + 1))));
            cur = String::new();
            start = k + 1;
            k = k + 1;
            assert(cur@ =~= s.subrange(start as int, k as int));
        } else {
            push_char(&mut cur, c);
            k = k + 1;
            assert(cur@ =~= s.subrange(start as int, k as int));
        }
    }
    let ghost rest = s.skip(start as int);
    proof {
        assert(rest =~= cur@);
        lemma_newline_from_none(rest, 0);
    }
    let ghost before = res@.map_values(|l: String| l@);
    if !cur.as_str().is_empty() {
        res.push(cur);
        assert(res@.map_values(|l: String| l@) =~= before + lines_spec(rest));
    } else {
        assert(lines_spec(rest) =~= Seq::<Seq<char>>::empty());
        assert(before + lines_spec(rest) =~= before);
    }
    res
}

fn ends_with_cr(s: &String) -> (r: bool)
    requires
        s@.len() > 0,
    ensures
        r == (s@.last() == '\r'),
{
    let cs = chars_of(s.as_str());
    cs[cs.len() - 1] == '\r'
}

fn drop_last_char(s: &String) -> (res: String)
    requires
        s@.len() > 0,
    ensures
        res@ == s@.drop_last(),
{
    let cs = chars_of(s.as_str());
    let mut res = String::new();
    let mut i: usize = 0;
    while i + 1 < cs.len()
        invariant
            cs@ == s@,
            i + 1 <= cs.len(),
            res@ == s@.take(i as int),
        decreases cs.len() - i,
    {
        push_char(&mut res, cs[i]);
        i = i + 1;
        assert(res@ =~= s@.take(i as int));
    }
    assert(res@ =~= s@.drop_last());
    res
}

/// Whether `s` is blank, character by character.
pub fn blank(s: &str) -> (r: bool)
    ensures
        r == is_blank(s@),
{
    let cs = chars_of(s);
    let mut i: usize = 0;
    while i < cs.len()
        invariant
            cs@ == s@,
            i <= cs.len(),
            forall|j: int| 0 <= j < i ==> is_white_space(#[trigger] s@[j]),
        decreases cs.len() - i,
    {
        if !white_space(cs[i]) {
            return false;
        }
        i = i + 1;
    }
    true
}

/// The last line of `ls` that is not blank.
pub open spec fn last_nonblank_spec(ls: Seq<Seq<char>>) -> Option<Seq<char>>
    decreases ls.len(),
{
    if ls.len() == 0 {
        None
    } else if !is_blank(ls.last()) {
        Some(ls.last())
    } else {
        last_nonblank_spec(ls.drop_last())
    }
}

/// The last non-blank line of `text`.
pub fn last_nonblank_line(text: &str) -> (res: Option<String>)
    ensures
        match res {
            Some(l) => last_nonblank_spec(lines_spec(text@)) == Some(l@),
            None => last_nonblank_spec(lines_spec(text@)) is None,
        },
{
    let ls = lines(text);
    let ghost lv = ls@.map_values(|l: String| l@);
    let mut i = ls.len();
    assert(lv.take(i as int) =~= lv);
    while i > 0
        invariant
            i <= ls.len(),
            lv == ls@.map_values(|l: String| l@),
            lv == lines_spec(text@),
            last_nonblank_spec(lv) == last_nonblank_spec(lv.take(i as int)),
        decreases i,
    {
        proof {
            assert(lv.take(i as int).drop_last() =~= lv.take(i as int - 1));
            assert(lv.take(i as int).last() == ls@[i as int - 1]@);
        }
        if !blank(ls[i - 1].as_str()) {
            let l = ls[i - 1].clone();
            assert(last_nonblank_spec(lv.take(i as int)) == Some(l@));
            return Some(l);
        }
        i = i - 1;
    }
    assert(lv.take(0) =~= Seq::<Seq<char>>::empty());
    None
}


/// Lexicographic order of texts by code point, the order of Rust's `String`
/// comparison (UTF-8 byte order agrees with code point order).
pub open spec fn text_lt(a: Seq<char>, b: Seq<char>) -> bool
    decreases a.len(),
{
    if a.len() == 0 {
        b.len() > 0
    } else if b.len() == 0 {
        false
    } else if (a[0] as int) < (b[0] as int) {
        true
    } else if a[0] == b[0] {
        text_lt(a.drop_first(), b.drop_first())
    } else {
        false
    }
}

/// No text precedes itself.
pub proof fn lemma_text_lt_irreflexive(a: Seq<char>)
    ensures
        !text_lt(a, a),
    decreases a.len(),
{
    if a.len() > 0 {
        lemma_text_lt_irreflexive(a.drop_first());
    }
}

/// Of two different texts, one precedes the other.
pub proof fn lemma_text_lt_total(a: Seq<char>, b: Seq<char>)
    ensures
        a == b || text_lt(a, b) || text_lt(b, a),
    decreases a.len(),
{
    if a.len() > 0 && b.len() > 0 {
        if a[0] == b[0] {
            lemma_text_lt_total(a.drop_first(), b.drop_first());
            if a.drop_first() == b.drop_first() {
                assert(a.drop_first().len() == b.drop_first().len());
                assert(a.len() == b.len());
                assert forall|i: int| 0 <= i < a.len() implies a[i] == b[i] by {
                    if i > 0 {
                        assert(a[i] == a.drop_first()[i - 1]);
                        assert(b[i] == b.drop_first()[i - 1]);
                    }
                }
                assert(a =~= b);
            }
        }
    } else if a.len() == 0 && b.len() == 0 {
        assert(a =~= b);
    }
}

/// The order is transitive.
pub proof fn lemma_text_lt_transitive(a: Seq<char>, b: Seq<char>, c: Seq<char>)
    requires
        text_lt(a, b),
        text_lt(b, c),
    ensures
        text_lt(a, c),
    decreases a.len(),
{
    if a.len() > 0 && b.len() > 0 && c.len() > 0 {
        if a[0] == b[0] && b[0] == c[0] {
            lemma_text_lt_transitive(a.drop_first(), b.drop_first(), c.drop_first());
        }
    }
}

/// Whether `a` precedes `b` in the order of `text_lt`.
pub fn text_less(a: &str, b: &str) -> (r: bool)
    ensures
        r == text_lt(a@, b@),
{
    let x = chars_of(a);
    let y = chars_of(b);
    let mut i: usize = 0;
    assert(a@.skip(0) =~= a@);
    assert(b@.skip(0) =~= b@);
    while i < x.len() && i < y.len()
        invariant
            x@ == a@,
            y@ == b@,
            i <= x.len(),
            i <= y.len(),
            text_lt(a@, b@) == text_lt(a@.skip(i as int), b@.skip(i as int)),
        decreases x.len() - i,
    {
        let ghost sa = a@.skip(i as int);
        let ghost sb = b@.skip(i as int);
        assert(sa[0] == x@[i as int]);
        assert(sb[0] == y@[i as int]);
        if x[i] < y[i] {
            return true;
        }
        if x[i] != y[i] {
            return false;
        }
        assert(sa.drop_first() =~= a@.skip(i as int + 1));
        assert(sb.drop_first() =~= b@.skip(i as int + 1));
        i = i + 1;
    }
    proof {
        let sa = a@.skip(i as int);
        let sb = b@.skip(i as int);
        assert(sa.len() == 0 || sb.len() == 0);
    }
    i == x.len() && i < y.len()
}

} // verus!
