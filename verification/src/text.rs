//! Character and string helpers shared by the library: whitespace trimming,
//! ASCII lowercasing, lexicographic ordering and decimal rendering.

use vstd::prelude::*;

verus! {

/// The Unicode `White_Space` code points, the set `char::is_whitespace`
/// recognizes.
pub open spec fn char_is_space(c: char) -> bool {
    let u = c as u32;
    u == 0x09 || u == 0x0A || u == 0x0B || u == 0x0C || u == 0x0D || u == 0x20 || u == 0x85
        || u == 0xA0 || u == 0x1680 || (0x2000 <= u && u <= 0x200A) || u == 0x2028 || u == 0x2029
        || u == 0x202F || u == 0x205F || u == 0x3000
}

pub fn is_space(c: char) -> (r: bool)
    ensures
        r == char_is_space(c),
{
    let u = c as u32;
    u == 0x09 || u == 0x0A || u == 0x0B || u == 0x0C || u == 0x0D || u == 0x20 || u == 0x85
        || u == 0xA0 || u == 0x1680 || (0x2000 <= u && u <= 0x200A) || u == 0x2028 || u == 0x2029
        || u == 0x202F || u == 0x205F || u == 0x3000
}

pub open spec fn drop_leading_space(s: Seq<char>) -> Seq<char>
    decreases s.len(),
{
    if s.len() > 0 && char_is_space(s[0]) {
        drop_leading_space(s.drop_first())
    } else {
        s
    }
}

pub open spec fn drop_trailing_space(s: Seq<char>) -> Seq<char>
    decreases s.len(),
{
    if s.len() > 0 && char_is_space(s.last()) {
        drop_trailing_space(s.drop_last())
    } else {
        s
    }
}

/// The string with leading and trailing whitespace removed, as `str::trim`
/// returns it.
pub open spec fn spec_trim(s: Seq<char>) -> Seq<char> {
    drop_trailing_space(drop_leading_space(s))
}

proof fn lemma_drop_leading_space_subrange(s: Seq<char>, i: int)
    requires
        0 <= i <= s.len(),
        forall|k: int| 0 <= k < i ==> char_is_space(s[k]),
        i < s.len() ==> !char_is_space(s[i]),
    ensures
        drop_leading_space(s) == s.subrange(i, s.len() as int),
    decreases i,
{
    if i == 0 {
        assert(drop_leading_space(s) =~= s.subrange(0, s.len() as int)) by {
            if s.len() > 0 && char_is_space(s[0]) {
            } else {
                assert(s =~= s.subrange(0, s.len() as int));
            }
        }
    } else {
        let t = s.drop_first();
        assert(forall|k: int| 0 <= k < i - 1 ==> char_is_space(t[k]));
        lemma_drop_leading_space_subrange(t, i - 1);
        assert(t.subrange(i - 1, t.len() as int) =~= s.subrange(i, s.len() as int));
    }
}

proof fn lemma_drop_trailing_space_subrange(s: Seq<char>, j: int)
    requires
        0 <= j <= s.len(),
        forall|k: int| j <= k < s.len() ==> char_is_space(s[k]),
        j > 0 ==> !char_is_space(s[j - 1]),
    ensures
        drop_trailing_space(s) == s.subrange(0, j),
    decreases s.len() - j,
{
    if j == s.len() {
        assert(drop_trailing_space(s) =~= s.subrange(0, j)) by {
            if s.len() > 0 && char_is_space(s.last()) {
            } else {
                assert(s =~= s.subrange(0, s.len() as int));
            }
        }
    } else {
        let t = s.drop_last();
        assert(forall|k: int| j <= k < t.len() ==> char_is_space(t[k]));
        lemma_drop_trailing_space_subrange(t, j);
        assert(t.subrange(0, j) =~= s.subrange(0, j));
    }
}

/// Removes leading and trailing Unicode whitespace.
pub fn trim(s: &str) -> (r: &str)
    ensures
        r@ == spec_trim(s@),
{
    let n = s.unicode_len();
    let mut i: usize = 0;
    while i < n && is_space(s.get_char(i))
        invariant
            0 <= i <= n == s@.len(),
            forall|k: int| 0 <= k < i ==> char_is_space(s@[k]),
        decreases n - i,
    {
        i = i + 1;
    }
    proof {
        lemma_drop_leading_space_subrange(s@, i as int);
    }
    let mut j: usize = n;
    while j > i && is_space(s.get_char(j - 1))
        invariant
            i <= j <= n == s@.len(),
            forall|k: int| 0 <= k < i ==> char_is_space(s@[k]),
            i < s@.len() ==> !char_is_space(s@[i as int]),
            forall|k: int| j <= k < n ==> char_is_space(s@[k]),
        decreases j,
    {
        j = j - 1;
    }
    let r = s.substring_char(i, j);
    proof {
        let lead = s@.subrange(i as int, s@.len() as int);
        assert(forall|k: int| j - i <= k < lead.len() ==> char_is_space(lead[k]));
        lemma_drop_trailing_space_subrange(lead, j - i);
        assert(lead.subrange(0, j - i) =~= s@.subrange(i as int, j as int));
    }
    r
}

/// The trimmed string, unless nothing but whitespace is left.
pub fn non_empty(s: &str) -> (r: Option<&str>)
    ensures
        match r {
            Some(t) => t@ == spec_trim(s@) && t@.len() > 0,
            None => spec_trim(s@).len() == 0,
        },
{
    let t = trim(s);
    if t.unicode_len() == 0 {
        None
    } else {
        Some(t)
    }
}

/// Relies on `String::push`: appends exactly one character at the end.
#[verifier::external_body]
pub fn push_char(s: &mut String, c: char)
    ensures
        final(s)@ == old(s)@.push(c),
{
    s.push(c);
}

/// The ASCII-lowercase counterpart of a character: `A`..`Z` map to
/// `a`..`z`, everything else is unchanged.
pub open spec fn spec_lower_char(c: char) -> char {
    match c {
        'A' => 'a',
        'B' => 'b',
        'C' => 'c',
        'D' => 'd',
        'E' => 'e',
        'F' => 'f',
        'G' => 'g',
        'H' => 'h',
        'I' => 'i',
        'J' => 'j',
        'K' => 'k',
        'L' => 'l',
        'M' => 'm',
        'N' => 'n',
        'O' => 'o',
        'P' => 'p',
        'Q' => 'q',
        'R' => 'r',
        'S' => 's',
        'T' => 't',
        'U' => 'u',
        'V' => 'v',
        'W' => 'w',
        'X' => 'x',
        'Y' => 'y',
        'Z' => 'z',
        _ => c,
    }
}

pub fn lower_char(c: char) -> (r: char)
    ensures
        r == spec_lower_char(c),
{
    match c {
        'A' => 'a',
        'B' => 'b',
        'C' => 'c',
        'D' => 'd',
        'E' => 'e',
        'F' => 'f',
        'G' => 'g',
        'H' => 'h',
        'I' => 'i',
        'J' => 'j',
        'K' => 'k',
        'L' => 'l',
        'M' => 'm',
        'N' => 'n',
        'O' => 'o',
        'P' => 'p',
        'Q' => 'q',
        'R' => 'r',
        'S' => 's',
        'T' => 't',
        'U' => 'u',
        'V' => 'v',
        'W' => 'w',
        'X' => 'x',
        'Y' => 'y',
        'Z' => 'z',
        _ => c,
    }
}

/// The whole string mapped through `spec_lower_char`.
pub open spec fn spec_lower(s: Seq<char>) -> Seq<char> {
    s.map(|_i: int, c: char| spec_lower_char(c))
}

/// ASCII-lowercases a string, leaving other characters unchanged.
pub fn to_ascii_lower(s: &str) -> (r: String)
    ensures
        r@ == spec_lower(s@),
{
    let n = s.unicode_len();
    let mut out = String::new();
    let mut i: usize = 0;
    while i < n
        invariant
            0 <= i <= n == s@.len(),
            out@ == spec_lower(s@.subrange(0, i as int)),
        decreases n - i,
    {
        let c = lower_char(s.get_char(i));
        push_char(&mut out, c);
        i = i + 1;
        proof {
            assert(out@ =~= spec_lower(s@.subrange(0, i as int)));
        }
    }
    proof {
        assert(s@.subrange(0, n as int) =~= s@);
    }
    out
}

/// Lexicographic order on character sequences by code point; this agrees
/// with the byte-wise order `Ord` gives Rust strings.
pub open spec fn lex_le(a: Seq<char>, b: Seq<char>) -> bool
    decreases a.len(),
{
    if a.len() == 0 {
        true
    } else if b.len() == 0 {
        false
    } else if (a[0] as u32) < (b[0] as u32) {
        true
    } else if (a[0] as u32) > (b[0] as u32) {
        false
    } else {
        lex_le(a.drop_first(), b.drop_first())
    }
}

pub proof fn lemma_lex_le_total(a: Seq<char>, b: Seq<char>)
    ensures
        lex_le(a, b) || lex_le(b, a),
    decreases a.len(),
{
    if a.len() == 0 || b.len() == 0 {
    } else if (a[0] as u32) == (b[0] as u32) {
        lemma_lex_le_total(a.drop_first(), b.drop_first());
    }
}

/// Compares two strings in the order of `lex_le`.
pub fn str_le(a: &str, b: &str) -> (r: bool)
    ensures
        r == lex_le(a@, b@),
{
    let na = a.unicode_len();
    let nb = b.unicode_len();
    let mut i: usize = 0;
    proof {
        assert(a@.subrange(0, na as int) =~= a@);
        assert(b@.subrange(0, nb as int) =~= b@);
    }
    loop
        invariant
            0 <= i <= na == a@.len(),
            i <= nb == b@.len(),
            lex_le(a@, b@) == lex_le(
                a@.subrange(i as int, na as int),
                b@.subrange(i as int, nb as int),
            ),
        decreases na - i,
    {
        if i == na {
            return true;
        }
        if i == nb {
            return false;
        }
        let ca = a.get_char(i) as u32;
        let cb = b.get_char(i) as u32;
        if ca < cb {
            return true;
        }
        if ca > cb {
            return false;
        }
        proof {
            let sa = a@.subrange(i as int, na as int);
            let sb = b@.subrange(i as int, nb as int);
            assert(sa.drop_first() =~= a@.subrange(i + 1, na as int));
            assert(sb.drop_first() =~= b@.subrange(i + 1, nb as int));
        }
        i = i + 1;
    }
}

pub open spec fn spec_hex_digit(d: int) -> char {
    if d == 0 {
        '0'
    } else if d == 1 {
        '1'
    } else if d == 2 {
        '2'
    } else if d == 3 {
        '3'
    } else if d == 4 {
        '4'
    } else if d == 5 {
        '5'
    } else if d == 6 {
        '6'
    } else if d == 7 {
        '7'
    } else if d == 8 {
        '8'
    } else if d == 9 {
        '9'
    } else if d == 10 {
        'a'
    } else if d == 11 {
        'b'
    } else if d == 12 {
        'c'
    } else if d == 13 {
        'd'
    } else if d == 14 {
        'e'
    } else {
        'f'
    }
}

pub fn hex_digit(d: u64) -> (r: char)
    requires
        d < 16,
    ensures
        r == spec_hex_digit(d as int),
{
    match d {
        0 => '0',
        1 => '1',
        2 => '2',
        3 => '3',
        4 => '4',
        5 => '5',
        6 => '6',
        7 => '7',
        8 => '8',
        9 => '9',
        10 => 'a',
        11 => 'b',
        12 => 'c',
        13 => 'd',
        14 => 'e',
        _ => 'f',
    }
}

/// Whether two strings hold the same characters.
pub fn str_eq(a: &str, b: &str) -> (r: bool)
    ensures
        r == (a@ == b@),
{
    let na = a.unicode_len();
    let nb = b.unicode_len();
    if na != nb {
        return false;
    }
    let mut i: usize = 0;
    while i < na
        invariant
            0 <= i <= na == a@.len(),
            nb == b@.len(),
            na == nb,
            forall|k: int| 0 <= k < i ==> a@[k] == b@[k],
        decreases na - i,
    {
        if a.get_char(i) != b.get_char(i) {
            return false;
        }
        i = i + 1;
    }
    proof {
        assert(a@ =~= b@);
    }
    true
}

/// Strict lexicographic order.
pub open spec fn lex_lt(a: Seq<char>, b: Seq<char>) -> bool {
    lex_le(a, b) && a != b
}

/// The decimal rendering of a natural number, most significant digit first.
pub open spec fn spec_dec_digit(d: int) -> char {
    if d == 0 {
        '0'
    } else if d == 1 {
        '1'
    } else if d == 2 {
        '2'
    } else if d == 3 {
        '3'
    } else if d == 4 {
        '4'
    } else if d == 5 {
        '5'
    } else if d == 6 {
        '6'
    } else if d == 7 {
        '7'
    } else if d == 8 {
        '8'
    } else {
        '9'
    }
}

pub open spec fn spec_dec(n: int) -> Seq<char>
    decreases n,
{
    if n <= 0 {
        seq!['0']
    } else if n < 10 {
        seq![spec_dec_digit(n)]
    } else {
        spec_dec(n / 10).push(spec_dec_digit(n % 10))
    }
}

fn dec_digit(d: u64) -> (r: char)
    requires
        d < 10,
    ensures
        r == spec_dec_digit(d as int),
{
    match d {
        0 => '0',
        1 => '1',
        2 => '2',
        3 => '3',
        4 => '4',
        5 => '5',
        6 => '6',
        7 => '7',
        8 => '8',
        _ => '9',
    }
}

/// Renders a number in decimal, without sign or padding.
pub fn u64_to_dec(n: u64) -> (r: String)
    ensures
        r@ == spec_dec(n as int),
    decreases n,
{
    if n < 10 {
        let mut out = String::new();
        push_char(&mut out, dec_digit(n));
        proof {
            assert(out@ =~= spec_dec(n as int));
        }
        out
    } else {
        let mut out = u64_to_dec(n / 10);
        push_char(&mut out, dec_digit(n % 10));
        out
    }
}

/// The signed decimal rendering.
pub open spec fn spec_dec_signed(n: int) -> Seq<char> {
    if n < 0 {
        seq!['-'] + spec_dec(-n)
    } else {
        spec_dec(n)
    }
}

/// Renders a signed number in decimal.
pub fn i64_to_dec(n: i64) -> (r: String)
    ensures
        r@ == spec_dec_signed(n as int),
{
    if n >= 0 {
        u64_to_dec(n as u64)
    } else {
        let m: u64 = (-(n as i128)) as u64;
        let mut out = String::from_str("-");
        let digits = u64_to_dec(m);
        out.append(digits.as_str());
        proof {
            reveal_strlit("-");
            assert(out@ =~= spec_dec_signed(n as int));
        }
        out
    }
}

/// The Unicode control characters (category Cc), the set
/// `char::is_control` recognizes.
pub open spec fn char_is_control(c: char) -> bool {
    (c as u32) < 0x20 || (0x7F <= c as u32 && c as u32 <= 0x9F)
}

/// How one character reads inside a JSON string literal.
pub open spec fn json_escaped_char(c: char) -> Seq<char> {
    if c == '\\' {
        seq!['\\', '\\']
    } else if c == '"' {
        seq!['\\', '"']
    } else if c == '\n' {
        seq!['\\', 'n']
    } else if c == '\r' {
        seq!['\\', 'r']
    } else if c == '\t' {
        seq!['\\', 't']
    } else if char_is_control(c) {
        seq!['\\', 'u', '0', '0', spec_hex_digit((c as u32 / 16) as int), spec_hex_digit(
            (c as u32 % 16) as int,
        )]
    } else {
        seq![c]
    }
}

pub open spec fn json_escaped(s: Seq<char>) -> Seq<char>
    decreases s.len(),
{
    if s.len() == 0 {
        Seq::empty()
    } else {
        json_escaped_char(s[0]) + json_escaped(s.drop_first())
    }
}

/// A string as a JSON string literal: quoted, with the usual escapes and
/// `\u00..` for other control characters.
pub open spec fn spec_json_string(s: Seq<char>) -> Seq<char> {
    seq!['"'] + json_escaped(s) + seq!['"']
}

proof fn lemma_json_escaped_snoc(s: Seq<char>, c: char)
    ensures
        json_escaped(s.push(c)) == json_escaped(s) + json_escaped_char(c),
    decreases s.len(),
{
    if s.len() == 0 {
        assert(s.push(c).drop_first() =~= Seq::<char>::empty());
        assert(s.push(c)[0] == c);
        assert(json_escaped(Seq::<char>::empty()) == Seq::<char>::empty());
        assert(json_escaped(s.push(c)) =~= json_escaped(s) + json_escaped_char(c));
    } else {
        assert(s.push(c).drop_first() =~= s.drop_first().push(c));
        lemma_json_escaped_snoc(s.drop_first(), c);
        assert(json_escaped(s.push(c)) =~= json_escaped(s) + json_escaped_char(c));
    }
}

fn push_json_escaped(out: &mut String, c: char)
    ensures
        final(out)@ == old(out)@ + json_escaped_char(c),
{
    if c == '\\' {
        push_char(out, '\\');
        push_char(out, '\\');
    } else if c == '"' {
        push_char(out, '\\');
        push_char(out, '"');
    } else if c == '\n' {
        push_char(out, '\\');
        push_char(out, 'n');
    } else if c == '\r' {
        push_char(out, '\\');
        push_char(out, 'r');
    } else if c == '\t' {
        push_char(out, '\\');
        push_char(out, 't');
    } else {
        let u = c as u32;
        if u < 0x20 || (0x7F <= u && u <= 0x9F) {
            push_char(out, '\\');
            push_char(out, 'u');
            push_char(out, '0');
            push_char(out, '0');
            push_char(out, hex_digit((u / 16) as u64));
            push_char(out, hex_digit((u % 16) as u64));
        } else {
            push_char(out, c);
        }
    }
    proof {
        assert(final(out)@ =~= old(out)@ + json_escaped_char(c));
    }
}

/// Renders a string as a JSON string literal.
pub fn json_string(s: &str) -> (r: String)
    ensures
        r@ == spec_json_string(s@),
{
    let n = s.unicode_len();
    let mut out = String::new();
    push_char(&mut out, '"');
    proof {
        assert(out@ =~= seq!['"'] + json_escaped(s@.subrange(0, 0)));
    }
    let mut i: usize = 0;
    while i < n
        invariant
            0 <= i <= n == s@.len(),
            out@ == seq!['"'] + json_escaped(s@.subrange(0, i as int)),
        decreases n - i,
    {
        let c = s.get_char(i);
        push_json_escaped(&mut out, c);
        proof {
            assert(s@.subrange(0, i + 1) =~= s@.subrange(0, i as int).push(s@[i as int]));
            lemma_json_escaped_snoc(s@.subrange(0, i as int), s@[i as int]);
            assert(out@ =~= seq!['"'] + json_escaped(s@.subrange(0, i + 1)));
        }
        i = i + 1;
    }
    push_char(&mut out, '"');
    proof {
        assert(s@.subrange(0, n as int) =~= s@);
        assert(out@ =~= spec_json_string(s@));
    }
    out
}

/// Whether a name occurs in the list, by characters.
pub open spec fn has_name(v: Seq<String>, n: Seq<char>) -> bool {
    exists|k: int| 0 <= k < v.len() && #[trigger] v[k]@ == n
}

/// Strictly ascending in lexicographic order; in particular, no duplicates.
pub open spec fn names_strictly_sorted(v: Seq<String>) -> bool {
    forall|k: int| #![trigger v[k]] 0 <= k < v.len() - 1 ==> lex_lt(v[k]@, v[k + 1]@)
}

pub fn insert_name_sorted(v: &mut Vec<String>, x: String)
    requires
        names_strictly_sorted(old(v)@),
        !has_name(old(v)@, x@),
    ensures
        names_strictly_sorted(final(v)@),
        forall|n: Seq<char>| #[trigger]
            has_name(final(v)@, n) <==> (has_name(old(v)@, n) || n == x@),
{
    let n = v.len();
    let mut pos: usize = 0;
    while pos < n && str_le(&v[pos], x.as_str())
        invariant
            0 <= pos <= n == v@.len(),
            names_strictly_sorted(v@),
            !has_name(v@, x@),
            forall|k: int| 0 <= k < pos ==> lex_lt(#[trigger] v@[k]@, x@),
        decreases n - pos,
    {
        proof {
            assert(v@[pos as int]@ != x@) by {
                assert(has_name(v@, v@[pos as int]@));
            }
        }
        pos = pos + 1;
    }
    proof {
        if pos < n {
            lemma_lex_le_total(v@[pos as int]@, x@);
            assert(v@[pos as int]@ != x@) by {
                assert(has_name(v@, v@[pos as int]@));
            }
        }
    }
    let ghost oldv = v@;
    v.insert(pos, x);
    proof {
        assert forall|k: int| 0 <= k < v@.len() - 1 implies lex_lt(#[trigger] v@[k]@, v@[k + 1]@) by {
            if k < pos - 1 {
                assert(v@[k] == oldv[k] && v@[k + 1] == oldv[k + 1]);
            } else if k == pos - 1 {
                assert(v@[k] == oldv[k]);
            } else if k == pos {
                assert(v@[k + 1] == oldv[k]);
            } else {
                assert(v@[k] == oldv[k - 1] && v@[k + 1] == oldv[k]);
            }
        }
        assert forall|nm: Seq<char>| #[trigger]
            has_name(v@, nm) <==> (has_name(oldv, nm) || nm == x@) by {
            if has_name(v@, nm) {
                let k = choose|k: int| 0 <= k < v@.len() && #[trigger] v@[k]@ == nm;
                if k < pos {
                    assert(oldv[k]@ == nm);
                } else if k == pos {
                } else {
                    assert(oldv[k - 1]@ == nm);
                }
            }
            if has_name(oldv, nm) {
                let k = choose|k: int| 0 <= k < oldv.len() && #[trigger] oldv[k]@ == nm;
                if k < pos {
                    assert(v@[k]@ == nm);
                } else {
                    assert(v@[k + 1]@ == nm);
                }
            }
            if nm == x@ {
                assert(v@[pos as int]@ == nm);
            }
        }
    }
}

fn contains_name(v: &Vec<String>, x: &str) -> (r: bool)
    ensures
        r == has_name(v@, x@),
{
    let n = v.len();
    let mut i: usize = 0;
    while i < n
        invariant
            0 <= i <= n == v@.len(),
            forall|k: int| 0 <= k < i ==> (#[trigger] v@[k])@ != x@,
        decreases n - i,
    {
        if str_eq(v[i].as_str(), x) {
            proof {
                assert(v@[i as int]@ == x@);
            }
            return true;
        }
        i = i + 1;
    }
    false
}

/// Sorts strings ascending and drops duplicates: the result is strictly
/// sorted and holds a text exactly when the input holds it.
pub fn sort_dedup(items: &Vec<String>) -> (r: Vec<String>)
    ensures
        names_strictly_sorted(r@),
        forall|n: Seq<char>| #[trigger] has_name(r@, n) <==> has_name(items@, n),
{
    let total = items.len();
    let mut out: Vec<String> = Vec::new();
    let mut i: usize = 0;
    while i < total
        invariant
            0 <= i <= total == items@.len(),
            names_strictly_sorted(out@),
            forall|n: Seq<char>| #[trigger]
                has_name(out@, n) <==> (exists|j: int| 0 <= j < i && (#[trigger] items@[j])@ == n),
        decreases total - i,
    {
        let ghost oldout = out@;
        if !contains_name(&out, items[i].as_str()) {
            insert_name_sorted(&mut out, items[i].clone());
        }
        proof {
            assert forall|n: Seq<char>| #[trigger]
                has_name(out@, n) <==> (exists|j: int|
                    0 <= j < i + 1 && (#[trigger] items@[j])@ == n) by {
                if has_name(out@, n) {
                    if has_name(oldout, n) {
                        let j = choose|j: int| 0 <= j < i && (#[trigger] items@[j])@ == n;
                        assert(items@[j]@ == n);
                    } else {
                        assert(items@[i as int]@ == n);
                    }
                }
                if exists|j: int| 0 <= j < i + 1 && (#[trigger] items@[j])@ == n {
                    let j = choose|j: int| 0 <= j < i + 1 && (#[trigger] items@[j])@ == n;
                    if j < i {
                        assert(has_name(oldout, n));
                    } else {
                        if has_name(oldout, n) {
                        } else {
                            assert(has_name(out@, items@[i as int]@));
                        }
                    }
                }
            }
        }
        i = i + 1;
    }
    out
}

} // verus!
