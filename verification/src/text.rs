//! Character-level string helpers shared by the prompt and notification code.
use vstd::prelude::*;
use vstd::utf8::*;
use vstd::std_specs::iter::IteratorSpec;

verus! {

/// Number of bytes that the UTF-8 encoding of `c` occupies.
pub open spec fn char_utf8_len(c: char) -> nat {
    if (c as u32) < 0x80 {
        1
    } else if (c as u32) < 0x800 {
        2
    } else if (c as u32) < 0x10000 {
        3
    } else {
        4
    }
}

/// Number of bytes that the UTF-8 encoding of `s` occupies.
pub open spec fn utf8_len(s: Seq<char>) -> nat
    decreases s.len(),
{
    if s.len() == 0 {
        0
    } else {
        utf8_len(s.drop_last()) + char_utf8_len(s.last())
    }
}

pub proof fn lemma_utf8_len_concat(a: Seq<char>, b: Seq<char>)
    ensures
        utf8_len(a + b) == utf8_len(a) + utf8_len(b),
    decreases b.len(),
{
    if b.len() == 0 {
        assert(a + b =~= a);
    } else {
        lemma_utf8_len_concat(a, b.drop_last());
        assert((a + b).drop_last() =~= a + b.drop_last());
        assert((a + b).last() == b.last());
    }
}

pub proof fn lemma_encode_utf8_len(s: Seq<char>)
    ensures
        encode_utf8(s).len() == utf8_len(s),
    decreases s.len(),
{
    if s.len() == 0 {
    } else {
        lemma_encode_utf8_len(s.drop_first());
        lemma_utf8_len_concat(seq![s[0]], s.drop_first());
        assert(seq![s[0]] + s.drop_first() =~= s);
        assert(utf8_len(seq![s[0]]) == char_utf8_len(s[0])) by {
            assert(seq![s[0]].drop_last() =~= Seq::<char>::empty());
            reveal_with_fuel(utf8_len, 2);
        }
        char_is_scalar(s[0]);
        assert(encode_scalar(s[0] as u32).len() == char_utf8_len(s[0]));
    }
}

/// The characters of `s`, in order.
pub fn chars_of(s: &str) -> (out: Vec<char>)
    ensures
        out@ == s@,
{
    broadcast use vstd::string::group_string_axioms;
    let mut out: Vec<char> = Vec::new();
    for c in iter: s.chars()
        invariant
            out@ == iter.seq().take(iter.index() as int),
            iter.seq() == s@,
    {
        out.push(c);
    }
    out
}


/// `String::push`: appends one character.
#[verifier::external_body]
pub(crate) fn push_char(s: &mut String, c: char)
    ensures
        final(s)@ == old(s)@.push(c),
{
    s.push(c);
}

/// Appends a string slice.
pub(crate) fn push_str(s: &mut String, t: &str)
    ensures
        final(s)@ == old(s)@ + t@,
{
    s.append(t);
}

/// Unicode `White_Space`, the set that `char::is_whitespace` and `str::trim` use.
pub open spec fn is_ws(c: char) -> bool {
    let v = c as u32;
    ||| 0x9 <= v <= 0xD
    ||| v == 0x20
    ||| v == 0x85
    ||| v == 0xA0
    ||| v == 0x1680
    ||| 0x2000 <= v <= 0x200A
    ||| v == 0x2028
    ||| v == 0x2029
    ||| v == 0x202F
    ||| v == 0x205F
    ||| v == 0x3000
}

pub fn char_is_ws(c: char) -> (b: bool)
    ensures
        b == is_ws(c),
{
    let v = c as u32;
    (0x9 <= v && v <= 0xD) || v == 0x20 || v == 0x85 || v == 0xA0 || v == 0x1680 || (0x2000 <= v
        && v <= 0x200A) || v == 0x2028 || v == 0x2029 || v == 0x202F || v == 0x205F || v == 0x3000
}

/// `s` with leading white space removed.
pub open spec fn trim_start(s: Seq<char>) -> Seq<char>
    decreases s.len(),
{
    if s.len() > 0 && is_ws(s[0]) {
        trim_start(s.drop_first())
    } else {
        s
    }
}

/// `s` with trailing white space removed.
pub open spec fn trim_end(s: Seq<char>) -> Seq<char>
    decreases s.len(),
{
    if s.len() > 0 && is_ws(s.last()) {
        trim_end(s.drop_last())
    } else {
        s
    }
}

/// `s` with leading and trailing white space removed, as `str::trim` gives it.
pub open spec fn trim(s: Seq<char>) -> Seq<char> {
    trim_end(trim_start(s))
}

/// True when `s` holds nothing but white space.
pub open spec fn is_blank(s: Seq<char>) -> bool {
    forall|i: int| 0 <= i < s.len() ==> is_ws(#[trigger] s[i])
}

pub proof fn lemma_trim_start_skip(s: Seq<char>, i: int)
    requires
        0 <= i <= s.len(),
        forall|j: int| 0 <= j < i ==> is_ws(#[trigger] s[j]),
        i == s.len() || !is_ws(s[i]),
    ensures
        trim_start(s) == s.subrange(i, s.len() as int),
    decreases i,
{
    if i == 0 {
        assert(s.subrange(0, s.len() as int) =~= s);
    } else {
        let t = s.drop_first();
        assert forall|j: int| 0 <= j < i - 1 implies is_ws(#[trigger] t[j]) by {
            assert(t[j] == s[j + 1]);
        }
        if i - 1 < t.len() {
            assert(t[i - 1] == s[i]);
        }
        lemma_trim_start_skip(t, i - 1);
        assert(t.subrange(i - 1, t.len() as int) =~= s.subrange(i, s.len() as int));
    }
}

pub proof fn lemma_trim_end_take(s: Seq<char>, k: int)
    requires
        0 <= k <= s.len(),
        forall|j: int| k <= j < s.len() ==> is_ws(#[trigger] s[j]),
        k == 0 || !is_ws(s[k - 1]),
    ensures
        trim_end(s) == s.subrange(0, k),
    decreases s.len() - k,
{
    if k == s.len() {
        assert(s.subrange(0, k) =~= s);
    } else {
        let t = s.drop_last();
        assert forall|j: int| k <= j < t.len() implies is_ws(#[trigger] t[j]) by {
            assert(t[j] == s[j]);
        }
        if k > 0 {
            assert(t[k - 1] == s[k - 1]);
        }
        lemma_trim_end_take(t, k);
        assert(t.subrange(0, k) =~= s.subrange(0, k));
    }
}

pub proof fn lemma_blank_iff_trim_empty(s: Seq<char>)
    ensures
        is_blank(s) <==> trim(s).len() == 0,
        trim(s).len() > 0 ==> !is_ws(trim(s)[0]) && !is_blank(trim(s)),
{
    let mut i: int = 0;
    if is_blank(s) {
        lemma_trim_start_skip(s, s.len() as int);
        assert(trim_start(s) =~= Seq::<char>::empty());
    } else {
        let j = choose|j: int| 0 <= j < s.len() && !is_ws(s[j]);
        lemma_first_non_ws_exists(s, j);
        let f = choose|f: int| 0 <= f <= j && !is_ws(s[f]) && forall|q: int| 0 <= q < f ==> is_ws(#[trigger] s[q]);
        lemma_trim_start_skip(s, f);
        let t = s.subrange(f, s.len() as int);
        assert(t[0] == s[f]);
        lemma_trim_end_nonempty(t);
    }
}

proof fn lemma_first_non_ws_exists(s: Seq<char>, j: int)
    requires
        0 <= j < s.len(),
        !is_ws(s[j]),
    ensures
        exists|f: int| 0 <= f <= j && !is_ws(s[f]) && forall|q: int| 0 <= q < f ==> is_ws(#[trigger] s[q]),
    decreases j,
{
    if forall|q: int| 0 <= q < j ==> is_ws(#[trigger] s[q]) {
        assert(0 <= j <= j && !is_ws(s[j]));
    } else {
        let j2 = choose|q: int| 0 <= q < j && !is_ws(s[q]);
        lemma_first_non_ws_exists(s, j2);
    }
}

proof fn lemma_trim_end_nonempty(t: Seq<char>)
    requires
        t.len() > 0,
        !is_ws(t[0]),
    ensures
        trim_end(t).len() > 0,
        trim_end(t)[0] == t[0],
    decreases t.len(),
{
    if is_ws(t.last()) {
        lemma_trim_end_nonempty(t.drop_last());
    }
}

/// The characters `v[lo..hi]` as a `String`.
pub fn string_from_chars(v: &Vec<char>, lo: usize, hi: usize) -> (out: String)
    requires
        lo <= hi <= v.len(),
    ensures
        out@ == v@.subrange(lo as int, hi as int),
{
    let mut out = String::new();
    let mut i = lo;
    while i < hi
        invariant
            lo <= i <= hi <= v.len(),
            out@ == v@.subrange(lo as int, i as int),
        decreases hi - i,
    {
        push_char(&mut out, v[i]);
        assert(v@.subrange(lo as int, i + 1) =~= v@.subrange(lo as int, i as int).push(v@[i as int]));
        i = i + 1;
    }
    out
}

/// `str::trim`, owned.
pub fn trim_str(s: &str) -> (out: String)
    ensures
        out@ == trim(s@),
{
    let v = chars_of(s);
    let n = v.len();
    let mut lo: usize = 0;
    while lo < n && char_is_ws(v[lo])
        invariant
            lo <= n == v@.len(),
            v@ == s@,
            forall|j: int| 0 <= j < lo ==> is_ws(#[trigger] v@[j]),
        decreases n - lo,
    {
        lo = lo + 1;
    }
    proof {
        lemma_trim_start_skip(s@, lo as int);
    }
    let mut hi: usize = n;
    while hi > lo && char_is_ws(v[hi - 1])
        invariant
            lo <= hi <= n == v@.len(),
            v@ == s@,
            forall|j: int| hi <= j < n ==> is_ws(#[trigger] v@[j]),
        decreases hi,
    {
        hi = hi - 1;
    }
    proof {
        let t = s@.subrange(lo as int, n as int);
        assert forall|j: int| hi - lo <= j < t.len() implies is_ws(#[trigger] t[j]) by {
            assert(t[j] == v@[j + lo]);
        }
        if hi > lo {
            assert(t[hi - lo - 1] == v@[hi - 1]);
        }
        lemma_trim_end_take(t, hi - lo);
        assert(t.subrange(0, hi - lo) =~= v@.subrange(lo as int, hi as int));
    }
    string_from_chars(&v, lo, hi)
}

/// `str::trim_end`, owned.
pub fn trim_end_str(s: &str) -> (out: String)
    ensures
        out@ == trim_end(s@),
{
    let v = chars_of(s);
    let n = v.len();
    let mut hi: usize = n;
    while hi > 0 && char_is_ws(v[hi - 1])
        invariant
            hi <= n == v@.len(),
            v@ == s@,
            forall|j: int| hi <= j < n ==> is_ws(#[trigger] v@[j]),
        decreases hi,
    {
        hi = hi - 1;
    }
    proof {
        lemma_trim_end_take(s@, hi as int);
    }
    string_from_chars(&v, 0, hi)
}

/// True when `s` is empty or white space only (`s.trim().is_empty()`).
pub fn str_is_blank(s: &str) -> (b: bool)
    ensures
        b == is_blank(s@),
{
    let v = chars_of(s);
    let mut i: usize = 0;
    while i < v.len()
        invariant
            i <= v@.len(),
            v@ == s@,
            forall|j: int| 0 <= j < i ==> is_ws(#[trigger] v@[j]),
        decreases v.len() - i,
    {
        if !char_is_ws(v[i]) {
            return false;
        }
        i = i + 1;
    }
    true
}

/// Character-wise equality of two string slices.
pub fn str_eq(a: &str, b: &str) -> (r: bool)
    ensures
        r == (a@ == b@),
{
    let va = chars_of(a);
    let vb = chars_of(b);
    if va.len() != vb.len() {
        return false;
    }
    let mut i: usize = 0;
    while i < va.len()
        invariant
            i <= va@.len() == vb@.len(),
            va@ == a@,
            vb@ == b@,
            forall|j: int| 0 <= j < i ==> va@[j] == vb@[j],
        decreases va.len() - i,
    {
        if va[i] != vb[i] {
            return false;
        }
        i = i + 1;
    }
    assert(va@ =~= vb@);
    true
}

/// True when `c` occurs in `s`.
pub fn str_contains_char(s: &str, c: char) -> (r: bool)
    ensures
        r == s@.contains(c),
{
    let v = chars_of(s);
    let mut i: usize = 0;
    while i < v.len()
        invariant
            i <= v@.len(),
            v@ == s@,
            forall|j: int| 0 <= j < i ==> v@[j] != c,
        decreases v.len() - i,
    {
        if v[i] == c {
            assert(s@[i as int] == c);
            return true;
        }
        i = i + 1;
    }
    false
}

/// A copy of `s`.
pub fn copy_str(s: &str) -> (out: String)
    ensures
        out@ == s@,
{
    let mut out = String::new();
    push_str(&mut out, s);
    assert(out@ =~= s@);
    out
}

/// A copy of an optional string.
pub fn copy_opt(s: &Option<String>) -> (out: Option<String>)
    ensures
        opt_view(*s) == opt_view(out),
        out.is_some() == s.is_some(),
{
    match s {
        Some(v) => Some(copy_str(v.as_str())),
        None => None,
    }
}

/// The view of an optional string.
pub open spec fn opt_view(s: Option<String>) -> Option<Seq<char>> {
    match s {
        Some(v) => Some(v@),
        None => None,
    }
}

/// Number of bytes of the UTF-8 encoding of `c` (`char::len_utf8`).
pub fn char_len_utf8(c: char) -> (n: usize)
    ensures
        n == char_utf8_len(c),
{
    let v = c as u32;
    if v < 0x80 {
        1
    } else if v < 0x800 {
        2
    } else if v < 0x10000 {
        3
    } else {
        4
    }
}

/// Byte length of `s` (`str::len`), stated over its characters.
pub fn byte_len(s: &str) -> (n: usize)
    requires
        utf8_len(s@) <= usize::MAX,
    ensures
        n == utf8_len(s@),
{
    proof {
        lemma_encode_utf8_len(s@);
    }
    s.len()
}


/// `s` with every character `c` replaced by `f(c)`.
pub open spec fn flat_map(s: Seq<char>, f: spec_fn(char) -> Seq<char>) -> Seq<char>
    decreases s.len(),
{
    if s.len() == 0 {
        Seq::empty()
    } else {
        flat_map(s.drop_last(), f) + f(s.last())
    }
}

/// The attribute escape used in prompt fences: `&`, `"`, `<`, `>`.
pub open spec fn attr_char(c: char) -> Seq<char> {
    if c == '&' {
        "&amp;"@
    } else if c == '"' {
        "&quot;"@
    } else if c == '<' {
        "&lt;"@
    } else if c == '>' {
        "&gt;"@
    } else {
        seq![c]
    }
}

/// The XML text escape: `&`, `<`, `>`.
pub open spec fn xml_text_char(c: char) -> Seq<char> {
    if c == '&' {
        "&amp;"@
    } else if c == '<' {
        "&lt;"@
    } else if c == '>' {
        "&gt;"@
    } else {
        seq![c]
    }
}

/// Text escaped for XML holds no `<` or `>`, so it can never open or close
/// an element.
pub proof fn law_escaped_text_has_no_markup(s: Seq<char>)
    ensures
        forall|i: int|
            0 <= i < escape_xml_text_spec(s).len() ==> escape_xml_text_spec(s)[i] != '<'
                && escape_xml_text_spec(s)[i] != '>',
    decreases s.len(),
{
    if s.len() > 0 {
        law_escaped_text_has_no_markup(s.drop_last());
        reveal_strlit("&amp;");
        reveal_strlit("&lt;");
        reveal_strlit("&gt;");
        let prev = escape_xml_text_spec(s.drop_last());
        let tail = xml_text_char(s.last());
        assert(escape_xml_text_spec(s) == prev + tail);
        assert forall|i: int| 0 <= i < tail.len() implies tail[i] != '<' && tail[i] != '>' by {}
        assert forall|i: int| 0 <= i < escape_xml_text_spec(s).len() implies escape_xml_text_spec(s)[i] != '<'
            && escape_xml_text_spec(s)[i] != '>' by {
            if i < prev.len() {
                assert(escape_xml_text_spec(s)[i] == prev[i]);
            } else {
                assert(escape_xml_text_spec(s)[i] == tail[i - prev.len()]);
            }
        }
    }
}

/// The XML attribute escape: the text escape plus `"` and `'`.
pub open spec fn xml_attr_char(c: char) -> Seq<char> {
    if c == '"' {
        "&quot;"@
    } else if c == '\'' {
        "&apos;"@
    } else {
        xml_text_char(c)
    }
}

pub open spec fn escape_attr_spec(s: Seq<char>) -> Seq<char> {
    flat_map(s, |c: char| attr_char(c))
}

pub open spec fn escape_xml_text_spec(s: Seq<char>) -> Seq<char> {
    flat_map(s, |c: char| xml_text_char(c))
}

pub open spec fn escape_xml_attribute_spec(s: Seq<char>) -> Seq<char> {
    flat_map(s, |c: char| xml_attr_char(c))
}

proof fn lemma_flat_map_push(s: Seq<char>, c: char, f: spec_fn(char) -> Seq<char>)
    ensures
        flat_map(s.push(c), f) == flat_map(s, f) + f(c),
{
    assert(s.push(c).drop_last() =~= s);
}

/// Which escape table to apply.
pub enum EscapeTable {
    Attr,
    XmlText,
    XmlAttr,
}

pub open spec fn escape_table_fn(t: EscapeTable) -> spec_fn(char) -> Seq<char> {
    match t {
        EscapeTable::Attr => |c: char| attr_char(c),
        EscapeTable::XmlText => |c: char| xml_text_char(c),
        EscapeTable::XmlAttr => |c: char| xml_attr_char(c),
    }
}

fn escape_one(out: &mut String, c: char, t: &EscapeTable)
    ensures
        final(out)@ == old(out)@ + (escape_table_fn(*t))(c),
{
    proof {
        reveal_strlit("&amp;");
        reveal_strlit("&quot;");
        reveal_strlit("&lt;");
        reveal_strlit("&gt;");
        reveal_strlit("&apos;");
    }
    let quote_escaped = match t {
        EscapeTable::Attr => true,
        EscapeTable::XmlText => false,
        EscapeTable::XmlAttr => true,
    };
    let apos_escaped = match t {
        EscapeTable::XmlAttr => true,
        _ => false,
    };
    if c == '&' {
        push_str(out, "&amp;");
    } else if c == '<' {
        push_str(out, "&lt;");
    } else if c == '>' {
        push_str(out, "&gt;");
    } else if c == '"' && quote_escaped {
        push_str(out, "&quot;");
    } else if c == '\'' && apos_escaped {
        push_str(out, "&apos;");
    } else {
        push_char(out, c);
        assert(old(out)@.push(c) =~= old(out)@ + seq![c]);
    }
}

/// Escape `s` with the given table.
pub fn escape_with(s: &str, t: EscapeTable) -> (out: String)
    ensures
        out@ == flat_map(s@, escape_table_fn(t)),
{
    let v = chars_of(s);
    let mut out = String::new();
    let mut i: usize = 0;
    while i < v.len()
        invariant
            i <= v@.len(),
            v@ == s@,
            out@ == flat_map(v@.take(i as int), escape_table_fn(t)),
        decreases v.len() - i,
    {
        escape_one(&mut out, v[i], &t);
        proof {
            lemma_flat_map_push(v@.take(i as int), v@[i as int], escape_table_fn(t));
            assert(v@.take(i as int).push(v@[i as int]) =~= v@.take(i + 1));
        }
        i = i + 1;
    }
    assert(v@.take(v@.len() as int) =~= v@);
    out
}

/// Escape `&`, `"`, `<` and `>` for a double-quoted prompt attribute.
pub fn escape_attr(s: &str) -> (out: String)
    ensures
        out@ == escape_attr_spec(s@),
{
    let out = escape_with(s, EscapeTable::Attr);
    assert(escape_table_fn(EscapeTable::Attr) == (|c: char| attr_char(c)));
    out
}

/// Escape `&`, `<` and `>` for XML text.
pub fn escape_xml_text(s: &str) -> (out: String)
    ensures
        out@ == escape_xml_text_spec(s@),
{
    let out = escape_with(s, EscapeTable::XmlText);
    assert(escape_table_fn(EscapeTable::XmlText) == (|c: char| xml_text_char(c)));
    out
}

/// Escape `&`, `<`, `>`, `"` and `'` for an XML attribute.
pub fn escape_xml_attribute(s: &str) -> (out: String)
    ensures
        out@ == escape_xml_attribute_spec(s@),
{
    let out = escape_with(s, EscapeTable::XmlAttr);
    assert(escape_table_fn(EscapeTable::XmlAttr) == (|c: char| xml_attr_char(c)));
    out
}

/// The decimal digit for `d < 10`.
pub open spec fn digit_char(d: nat) -> char {
    if d == 0 {
        '0'
    } else if d == 1 {
        '1'
    } else if d == 2 {
        '2'
    } else if d == 3 {
        '3'
    } else if d == 4 {
        '4'
    } else if d == 5 {
        '5'
    } else if d == 6 {
        '6'
    } else if d == 7 {
        '7'
    } else if d == 8 {
        '8'
    } else {
        '9'
    }
}

/// The decimal representation of `n`, as `Display` prints it.
pub open spec fn decimal(n: nat) -> Seq<char>
    decreases n,
{
    if n < 10 {
        seq![digit_char(n)]
    } else {
        decimal(n / 10).push(digit_char(n % 10))
    }
}

/// The decimal representation of a signed integer.
pub open spec fn signed_decimal(n: int) -> Seq<char> {
    if n < 0 {
        seq!['-'] + decimal((-n) as nat)
    } else {
        decimal(n as nat)
    }
}

fn digit(d: u64) -> (c: char)
    requires
        d < 10,
    ensures
        c == digit_char(d as nat),
{
    if d == 0 {
        '0'
    } else if d == 1 {
        '1'
    } else if d == 2 {
        '2'
    } else if d == 3 {
        '3'
    } else if d == 4 {
        '4'
    } else if d == 5 {
        '5'
    } else if d == 6 {
        '6'
    } else if d == 7 {
        '7'
    } else if d == 8 {
        '8'
    } else {
        '9'
    }
}

/// Append the decimal representation of `n` to `out`.
pub fn push_decimal(out: &mut String, n: u64)
    ensures
        final(out)@ == old(out)@ + decimal(n as nat),
    decreases n,
{
    if n < 10 {
        push_char(out, digit(n));
        assert(old(out)@.push(digit_char(n as nat)) =~= old(out)@ + decimal(n as nat));
    } else {
        push_decimal(out, n / 10);
        push_char(out, digit(n % 10));
        assert(old(out)@ + decimal((n / 10) as nat) + seq![digit_char((n % 10) as nat)] =~= old(out)@
            + decimal(n as nat));
    }
}

/// Append the decimal representation of a signed `n` to `out`.
pub fn push_signed_decimal(out: &mut String, n: i64)
    ensures
        final(out)@ == old(out)@ + signed_decimal(n as int),
{
    if n < 0 {
        push_char(out, '-');
        let magnitude: u64 = if n == i64::MIN {
            9223372036854775808u64
        } else {
            (-n) as u64
        };
        push_decimal(out, magnitude);
        assert(old(out)@.push('-') + decimal(magnitude as nat) =~= old(out)@ + (seq!['-']
            + decimal((-n) as nat)));
    } else {
        push_decimal(out, n as u64);
    }
}

/// `"true"` or `"false"`.
pub open spec fn bool_text(b: bool) -> Seq<char> {
    if b {
        "true"@
    } else {
        "false"@
    }
}

pub fn push_bool(out: &mut String, b: bool)
    ensures
        final(out)@ == old(out)@ + bool_text(b),
{
    if b {
        push_str(out, "true");
    } else {
        push_str(out, "false");
    }
}


pub proof fn lemma_utf8_len_take_mono(s: Seq<char>, i: int, j: int)
    requires
        0 <= i <= j <= s.len(),
    ensures
        utf8_len(s.take(i)) <= utf8_len(s.take(j)),
{
    lemma_utf8_len_concat(s.take(i), s.subrange(i, j));
    assert(s.take(i) + s.subrange(i, j) =~= s.take(j));
}

pub proof fn lemma_utf8_len_take_step(s: Seq<char>, i: int)
    requires
        0 <= i < s.len(),
    ensures
        utf8_len(s.take(i + 1)) == utf8_len(s.take(i)) + char_utf8_len(s[i]),
{
    assert(s.take(i + 1).drop_last() =~= s.take(i));
}

pub proof fn lemma_trim_end_len(s: Seq<char>)
    ensures
        utf8_len(trim_end(s)) <= utf8_len(s),
    decreases s.len(),
{
    if s.len() > 0 && is_ws(s.last()) {
        lemma_trim_end_len(s.drop_last());
    }
}

/// `min(utf8_len(s), cap)`, computed without ever exceeding `cap`.
pub fn utf8_len_capped(s: &str, cap: usize) -> (r: usize)
    ensures
        r == (if utf8_len(s@) <= cap {
            utf8_len(s@)
        } else {
            cap as nat
        }),
{
    let v = chars_of(s);
    let mut i: usize = 0;
    let mut sum: usize = 0;
    while i < v.len()
        invariant
            i <= v@.len(),
            v@ == s@,
            sum == utf8_len(v@.take(i as int)),
            sum <= cap,
        decreases v.len() - i,
    {
        let w = char_len_utf8(v[i]);
        proof {
            lemma_utf8_len_take_step(v@, i as int);
        }
        if w > cap - sum {
            proof {
                lemma_utf8_len_take_mono(v@, i + 1, v@.len() as int);
                assert(v@.take(v@.len() as int) =~= s@);
            }
            return cap;
        }
        sum = sum + w;
        i = i + 1;
    }
    assert(v@.take(v@.len() as int) =~= s@);
    sum
}


/// ASCII lower-casing of one character.
pub open spec fn ascii_lower(c: char) -> char {
    if 'A' <= c <= 'Z' {
        ((c as u32) + 32) as char
    } else {
        c
    }
}

pub open spec fn ascii_lower_seq(s: Seq<char>) -> Seq<char> {
    s.map_values(|c: char| ascii_lower(c))
}

pub fn ascii_lowercase(s: &str) -> (out: String)
    ensures
        out@ == ascii_lower_seq(s@),
{
    let v = chars_of(s);
    let mut out = String::new();
    let mut i: usize = 0;
    while i < v.len()
        invariant
            i <= v@.len(),
            v@ == s@,
            out@ == ascii_lower_seq(v@.take(i as int)),
        decreases v.len() - i,
    {
        let c = v[i];
        let lc = if 'A' <= c && c <= 'Z' {
            let b = (c as u8) + 32;
            b as char
        } else {
            c
        };
        push_char(&mut out, lc);
        assert(ascii_lower_seq(v@.take(i + 1)) =~= ascii_lower_seq(v@.take(i as int)).push(lc));
        i = i + 1;
    }
    assert(v@.take(v@.len() as int) =~= v@);
    out
}

/// `parts` joined with `sep`.
pub open spec fn join(parts: Seq<Seq<char>>, sep: Seq<char>) -> Seq<char>
    decreases parts.len(),
{
    if parts.len() == 0 {
        Seq::empty()
    } else if parts.len() == 1 {
        parts[0]
    } else {
        join(parts.drop_last(), sep) + sep + parts.last()
    }
}

/// `parts` joined with `sep`, appended to `out`.
pub fn push_joined(out: &mut String, parts: &Vec<String>, sep: &str)
    ensures
        final(out)@ == old(out)@ + join(parts@.map_values(|p: String| p@), sep@),
{
    let ghost views = parts@.map_values(|p: String| p@);
    let ghost start = out@;
    let mut i: usize = 0;
    while i < parts.len()
        invariant
            i <= parts@.len(),
            views == parts@.map_values(|p: String| p@),
            out@ == start + join(views.take(i as int), sep@),
        decreases parts.len() - i,
    {
        if i > 0 {
            push_str(out, sep);
        }
        push_str(out, parts[i].as_str());
        proof {
            assert(views.take(i + 1).drop_last() =~= views.take(i as int));
            assert(views.take(i + 1).last() == parts@[i as int]@);
            if i == 0 {
                assert(views.take(1) =~= seq![parts@[0]@]);
                assert(join(views.take(0), sep@) =~= Seq::<char>::empty());
            }
        }
        i = i + 1;
    }
    assert(views.take(parts@.len() as int) =~= views);
}


/// `a` sorts strictly before `b`: lexicographic by character code, which is
/// the byte order of their UTF-8 encodings (the order of `str`'s `Ord`).
pub open spec fn seq_lt(a: Seq<char>, b: Seq<char>) -> bool {
    exists|i: int|
        #![trigger a.take(i), b.take(i)]
        0 <= i <= a.len() && i <= b.len() && a.take(i) == b.take(i) && ((i == a.len() && i < b.len())
            || (i < a.len() && i < b.len() && (a[i] as u32) < (b[i] as u32)))
}

/// The length of the common prefix of `a` and `b`.
pub open spec fn common_prefix(a: Seq<char>, b: Seq<char>, i: int) -> bool {
    0 <= i <= a.len() && i <= b.len() && a.take(i) == b.take(i) && (i == a.len() || i == b.len()
        || a[i] != b[i])
}

pub proof fn lemma_prefix_unique(a: Seq<char>, b: Seq<char>, i: int, j: int)
    requires
        common_prefix(a, b, i),
        0 <= j <= a.len() && j <= b.len() && a.take(j) == b.take(j),
    ensures
        j <= i,
{
    if j > i {
        assert(i < a.len() && i < b.len());
        assert(a.take(j)[i] == a[i]);
        assert(b.take(j)[i] == b[i]);
    }
}

/// Exactly one of `a < b`, `a == b`, `b < a` holds.
pub proof fn lemma_seq_lt_trichotomy(a: Seq<char>, b: Seq<char>)
    ensures
        (a == b) ==> !seq_lt(a, b),
        a != b ==> (seq_lt(a, b) || seq_lt(b, a)),
        !(seq_lt(a, b) && seq_lt(b, a)),
{
    lemma_has_common_prefix(a, b);
    let i = choose_prefix(a, b);
    if seq_lt(a, b) {
        let j = choose|j: int|
            #![trigger a.take(j), b.take(j)]
            0 <= j <= a.len() && j <= b.len() && a.take(j) == b.take(j) && ((j == a.len() && j < b.len())
                || (j < a.len() && j < b.len() && (a[j] as u32) < (b[j] as u32)));
        lemma_prefix_unique(a, b, i, j);
        if j < i {
            assert(a.take(i)[j] == a[j]);
            assert(b.take(i)[j] == b[j]);
        }
        if seq_lt(b, a) {
            let k = choose|k: int|
                #![trigger b.take(k), a.take(k)]
                0 <= k <= b.len() && k <= a.len() && b.take(k) == a.take(k) && ((k == b.len() && k
                    < a.len()) || (k < b.len() && k < a.len() && (b[k] as u32) < (a[k] as u32)));
            lemma_prefix_unique(a, b, i, k);
            if k < i {
                assert(a.take(i)[k] == a[k]);
                assert(b.take(i)[k] == b[k]);
            }
        }
        if a == b {
            assert(j < a.len() ==> a[j] == b[j]);
        }
    }
    if a != b {
        if i == a.len() && i == b.len() {
            assert(a.take(i) =~= a);
            assert(b.take(i) =~= b);
        } else if i == a.len() {
            assert(seq_lt(a, b));
        } else if i == b.len() {
            assert(b.take(i) == a.take(i));
            assert(seq_lt(b, a));
        } else {
            crate::text::lemma_char_u32_ne(a[i], b[i]);
            if (a[i] as u32) < (b[i] as u32) {
                assert(seq_lt(a, b));
            } else {
                assert(b.take(i) == a.take(i));
                assert(seq_lt(b, a));
            }
        }
    }
}

pub proof fn lemma_char_u32_ne(x: char, y: char)
    requires
        x != y,
    ensures
        (x as u32) != (y as u32),
{
    vstd::utf8::char_u32_cast(x, x as u32);
    vstd::utf8::char_u32_cast(y, y as u32);
}

pub open spec fn choose_prefix(a: Seq<char>, b: Seq<char>) -> int {
    choose|i: int| common_prefix(a, b, i)
}

proof fn lemma_common_prefix_exists(a: Seq<char>, b: Seq<char>, k: int)
    requires
        0 <= k <= a.len() && k <= b.len(),
        a.take(k) == b.take(k),
    ensures
        exists|i: int| common_prefix(a, b, i),
    decreases a.len() - k,
{
    if k == a.len() || k == b.len() || a[k] != b[k] {
        assert(common_prefix(a, b, k));
    } else {
        assert(a.take(k + 1) =~= a.take(k).push(a[k]));
        assert(b.take(k + 1) =~= b.take(k).push(b[k]));
        lemma_common_prefix_exists(a, b, k + 1);
    }
}

pub proof fn lemma_has_common_prefix(a: Seq<char>, b: Seq<char>)
    ensures
        common_prefix(a, b, choose_prefix(a, b)),
{
    assert(a.take(0) =~= b.take(0));
    lemma_common_prefix_exists(a, b, 0);
}

/// `a < b` in string order.
pub fn str_lt(a: &str, b: &str) -> (r: bool)
    ensures
        r == seq_lt(a@, b@),
{
    let va = chars_of(a);
    let vb = chars_of(b);
    let mut i: usize = 0;
    while i < va.len() && i < vb.len() && va[i] == vb[i]
        invariant
            i <= va@.len(),
            i <= vb@.len(),
            va@ == a@,
            vb@ == b@,
            va@.take(i as int) == vb@.take(i as int),
        decreases va.len() - i,
    {
        assert(va@.take(i + 1) =~= va@.take(i as int).push(va@[i as int]));
        assert(vb@.take(i + 1) =~= vb@.take(i as int).push(vb@[i as int]));
        i = i + 1;
    }
    proof {
        assert(common_prefix(a@, b@, i as int));
        lemma_has_common_prefix(a@, b@);
        lemma_prefix_unique(a@, b@, i as int, choose_prefix(a@, b@));
        lemma_prefix_unique(a@, b@, choose_prefix(a@, b@), i as int);
        lemma_seq_lt_trichotomy(a@, b@);
    }
    if i == va.len() {
        if i < vb.len() {
            assert(seq_lt(a@, b@));
            true
        } else {
            assert(a@ =~= va@.take(i as int));
            assert(b@ =~= vb@.take(i as int));
            false
        }
    } else if i == vb.len() {
        proof {
            assert(vb@.take(i as int) == va@.take(i as int));
            assert(seq_lt(b@, a@));
        }
        false
    } else {
        let x = va[i] as u32;
        let y = vb[i] as u32;
        if x < y {
            assert(seq_lt(a@, b@));
            true
        } else {
            proof {
                lemma_char_u32_ne(va@[i as int], vb@[i as int]);
                assert(vb@.take(i as int) == va@.take(i as int));
                assert(seq_lt(b@, a@));
            }
            false
        }
    }
}

/// `s` is strictly increasing in string order.
pub open spec fn sorted_strict(s: Seq<Seq<char>>) -> bool {
    forall|i: int| 0 <= i < s.len() - 1 ==> seq_lt(#[trigger] s[i], s[i + 1])
}

/// Insert `x` into a strictly sorted list of strings, unless present.
pub fn insert_sorted(v: &mut Vec<String>, x: &str)
    requires
        sorted_strict(old(v)@.map_values(|s: String| s@)),
        old(v)@.map_values(|s: String| s@).no_duplicates(),
    ensures
        sorted_strict(final(v)@.map_values(|s: String| s@)),
        final(v)@.map_values(|s: String| s@).no_duplicates(),
        final(v)@.map_values(|s: String| s@).to_set() == old(v)@.map_values(|s: String| s@).to_set().insert(
            x@,
        ),
{
    let ghost before = v@.map_values(|s: String| s@);
    let mut i: usize = 0;
    while i < v.len()
        invariant
            i <= v@.len(),
            before == v@.map_values(|s: String| s@),
            sorted_strict(before),
            before.no_duplicates(),
            forall|j: int| 0 <= j < i ==> before[j] != x@,
        decreases v.len() - i,
    {
        if str_eq(v[i].as_str(), x) {
            proof {
                assert(before[i as int] == x@);
                assert(before.to_set().insert(x@) =~= before.to_set());
            }
            return;
        }
        i = i + 1;
    }
    let mut p: usize = 0;
    while p < v.len() && str_lt(v[p].as_str(), x)
        invariant
            p <= v@.len(),
            before == v@.map_values(|s: String| s@),
            sorted_strict(before),
            before.no_duplicates(),
            !before.contains(x@),
            p > 0 ==> seq_lt(before[p - 1], x@),
        decreases v.len() - p,
    {
        p = p + 1;
    }
    proof {
        if p < before.len() {
            assert(before[p as int] != x@);
            lemma_seq_lt_trichotomy(before[p as int], x@);
        }
    }
    let ghost vb = v@;
    v.insert(p, copy_str(x));
    proof {
        assert(!before.contains(x@));
        assert(v@ =~= vb.insert(p as int, v@[p as int]));
        assert(v@.map_values(|s: String| s@) =~= before.insert(p as int, x@));
        lemma_insert_sorted(before, p as int, x@);
    }
}

proof fn lemma_insert_sorted(before: Seq<Seq<char>>, p: int, x: Seq<char>)
    requires
        sorted_strict(before),
        before.no_duplicates(),
        0 <= p <= before.len(),
        !before.contains(x),
        p > 0 ==> seq_lt(before[p - 1], x),
        p < before.len() ==> seq_lt(x, before[p]),
    ensures
        sorted_strict(before.insert(p, x)),
        before.insert(p, x).no_duplicates(),
        before.insert(p, x).to_set() == before.to_set().insert(x),
{
    let after = before.insert(p, x);
    assert forall|j: int| 0 <= j < after.len() - 1 implies seq_lt(#[trigger] after[j], after[j + 1]) by {
        if j < p - 1 {
            assert(after[j] == before[j] && after[j + 1] == before[j + 1]);
        } else if j == p - 1 {
        } else if j == p {
        } else {
            assert(after[j] == before[j - 1] && after[j + 1] == before[j]);
        }
    }
    assert forall|a: int, b: int| 0 <= a < after.len() && 0 <= b < after.len() && a != b implies after[a] != after[b] by {
        if a == p {
            if b < p {
                assert(after[b] == before[b]);
            } else {
                assert(after[b] == before[b - 1]);
            }
        } else if b == p {
            if a < p {
                assert(after[a] == before[a]);
            } else {
                assert(after[a] == before[a - 1]);
            }
        } else {
            let oa = if a < p { a } else { a - 1 };
            let ob = if b < p { b } else { b - 1 };
            assert(after[a] == before[oa]);
            assert(after[b] == before[ob]);
        }
    }
    assert forall|q: Seq<char>| after.to_set().contains(q) == before.to_set().insert(x).contains(q) by {
        if after.to_set().contains(q) {
            let k = choose|k: int| 0 <= k < after.len() && after[k] == q;
            if k != p {
                let ok = if k < p { k } else { k - 1 };
                assert(before[ok] == q);
            }
        }
        if before.to_set().contains(q) {
            let k = choose|k: int| 0 <= k < before.len() && before[k] == q;
            let nk = if k < p { k } else { k + 1 };
            assert(after[nk] == q);
        }
        if q == x {
            assert(after[p] == q);
        }
    }
    assert(after.to_set() =~= before.to_set().insert(x));
}

/// The string order is transitive.
pub proof fn lemma_seq_lt_trans(a: Seq<char>, b: Seq<char>, c: Seq<char>)
    requires
        seq_lt(a, b),
        seq_lt(b, c),
    ensures
        seq_lt(a, c),
{
    let i = choose|i: int|
        #![trigger a.take(i), b.take(i)]
        0 <= i <= a.len() && i <= b.len() && a.take(i) == b.take(i) && ((i == a.len() && i < b.len())
            || (i < a.len() && i < b.len() && (a[i] as u32) < (b[i] as u32)));
    let j = choose|j: int|
        #![trigger b.take(j), c.take(j)]
        0 <= j <= b.len() && j <= c.len() && b.take(j) == c.take(j) && ((j == b.len() && j < c.len())
            || (j < b.len() && j < c.len() && (b[j] as u32) < (c[j] as u32)));
    if i < j {
        assert forall|k: int| 0 <= k < i implies a[k] == c[k] by {
            assert(a.take(i)[k] == b.take(i)[k]);
            assert(b.take(j)[k] == c.take(j)[k]);
        }
        assert(a.take(i) =~= c.take(i));
        assert(b.take(j)[i] == c.take(j)[i]);
        assert(b[i] == c[i]);
    } else if j < i {
        assert forall|k: int| 0 <= k < j implies a[k] == c[k] by {
            assert(a.take(i)[k] == b.take(i)[k]);
            assert(b.take(j)[k] == c.take(j)[k]);
        }
        assert(a.take(j) =~= c.take(j));
        assert(a.take(i)[j] == b.take(i)[j]);
        assert(a[j] == b[j]);
    } else {
        assert forall|k: int| 0 <= k < i implies a[k] == c[k] by {
            assert(a.take(i)[k] == b.take(i)[k]);
            assert(b.take(j)[k] == c.take(j)[k]);
        }
        assert(a.take(i) =~= c.take(i));
    }
}

/// Every earlier string of a strictly sorted list is below every later one.
pub open spec fn sorted_pairwise(s: Seq<Seq<char>>) -> bool {
    forall|i: int, j: int| 0 <= i < j < s.len() ==> seq_lt(#[trigger] s[i], #[trigger] s[j])
}

pub proof fn lemma_sorted_pairwise(s: Seq<Seq<char>>)
    requires
        sorted_strict(s),
    ensures
        sorted_pairwise(s),
    decreases s.len(),
{
    if s.len() > 1 {
        let d = s.drop_last();
        assert(sorted_strict(d)) by {
            assert forall|i: int| 0 <= i < d.len() - 1 implies seq_lt(#[trigger] d[i], d[i + 1]) by {
                assert(d[i] == s[i] && d[i + 1] == s[i + 1]);
            }
        }
        lemma_sorted_pairwise(d);
        let n = s.len() - 1;
        assert forall|i: int, j: int| 0 <= i < j < s.len() implies seq_lt(#[trigger] s[i], #[trigger] s[j]) by {
            if j < n {
                assert(d[i] == s[i] && d[j] == s[j]);
            } else if i < n - 1 {
                assert(d[i] == s[i] && d[n - 1] == s[n - 1]);
                assert(seq_lt(s[n - 1], s[n]));
                lemma_seq_lt_trans(s[i], s[n - 1], s[n]);
            } else {
                assert(seq_lt(s[n - 1], s[n]));
            }
        }
    }
}

/// Filtering keeps a pairwise sorted list pairwise sorted, and keeps only
/// elements of the list.
pub proof fn lemma_filter_sorted(s: Seq<Seq<char>>, pred: spec_fn(Seq<char>) -> bool)
    requires
        sorted_pairwise(s),
    ensures
        sorted_pairwise(s.filter(pred)),
        forall|k: int| 0 <= k < s.filter(pred).len() ==> s.contains(#[trigger] s.filter(pred)[k]),
    decreases s.len(),
{
    reveal_with_fuel(Seq::filter, 1);
    if s.len() > 0 {
        let d = s.drop_last();
        assert(sorted_pairwise(d)) by {
            assert forall|i: int, j: int| 0 <= i < j < d.len() implies seq_lt(#[trigger] d[i], #[trigger] d[j]) by {
                assert(d[i] == s[i] && d[j] == s[j]);
            }
        }
        lemma_filter_sorted(d, pred);
        let fd = d.filter(pred);
        if pred(s.last()) {
            let f = fd.push(s.last());
            assert(s.filter(pred) == f);
            assert forall|i: int, j: int| 0 <= i < j < f.len() implies seq_lt(#[trigger] f[i], #[trigger] f[j]) by {
                if j < fd.len() {
                    assert(f[i] == fd[i] && f[j] == fd[j]);
                } else {
                    assert(f[i] == fd[i]);
                    assert(d.contains(fd[i]));
                    let m = choose|m: int| 0 <= m < d.len() && d[m] == fd[i];
                    assert(s[m] == d[m]);
                    assert(seq_lt(s[m], s[s.len() - 1]));
                }
            }
            assert forall|k: int| 0 <= k < f.len() implies s.contains(#[trigger] f[k]) by {
                if k < fd.len() {
                    assert(f[k] == fd[k]);
                    assert(d.contains(fd[k]));
                    let m = choose|m: int| 0 <= m < d.len() && d[m] == fd[k];
                    assert(s[m] == d[m]);
                } else {
                    assert(s[s.len() - 1] == f[k]);
                }
            }
        } else {
            assert(s.filter(pred) == fd);
            assert forall|k: int| 0 <= k < fd.len() implies s.contains(#[trigger] fd[k]) by {
                assert(d.contains(fd[k]));
                let m = choose|m: int| 0 <= m < d.len() && d[m] == fd[k];
                assert(s[m] == d[m]);
            }
        }
    }
}

} // verus!
